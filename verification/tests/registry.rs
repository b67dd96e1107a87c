//! Registry and session lifecycle behaviour: acquire arbitration, release
//! events, broadcast fan-out, idle expiry, and the end-to-end flows a client
//! would observe.

use sockjs::context::SockJSContext;
use sockjs::manager::{Acquire, Broadcast, Record, Release, SessionMessage, SockJSManager};
use sockjs::protocol::{
    CloseCode, CloseReason, Frame, Message, SessionError, SessionState, SockJSChannel,
};
use sockjs::transports::rawwebsocket::{RawWebsocket, WsUnit};
use sockjs::transports::xhr::{Xhr, XhrInit};
use sockjs::transports::{ChannelItem, HttpMethod};

fn poll(m: &mut SockJSManager, sid: &str, addr: u32, now: u64) -> (Xhr, Vec<SockJSChannel>) {
    let mut t = match Xhr::init(HttpMethod::Post) {
        XhrInit::Transport(t) => t,
        _ => panic!("POST must start a transport"),
    };
    let (rec, evs) = match m.handle_acquire(Acquire::new(sid.to_string(), addr), now) {
        Ok(p) => p,
        Err(e) => panic!("acquire failed: {:?}", e),
    };
    let rel = t.init_transport(Ok(rec));
    assert!(rel.is_none());
    (t, evs)
}

#[test]
fn polling_open_then_second_poll_refused() {
    let mut m = SockJSManager::default();

    let (t, evs) = poll(&mut m, "abc", 1, 0);
    assert_eq!(evs, vec![SockJSChannel::Opened, SockJSChannel::Acquired]);
    assert_eq!(t.out, vec!["o\n".to_string()]);

    // A second poll while the first owns the session is refused.
    let err = m
        .handle_acquire(Acquire::new("abc".to_string(), 2), 0)
        .unwrap_err();
    assert_eq!(err, SessionError::Acquired);

    let mut t2 = match Xhr::init(HttpMethod::Post) {
        XhrInit::Transport(t) => t,
        _ => panic!("POST must start a transport"),
    };
    t2.send_close(err.close_code());
    assert_eq!(
        t2.out,
        vec!["c[2010,\"Another connection still open\"]\n".to_string()]
    );
}

#[test]
fn send_then_next_poll_reads_the_message() {
    let mut m = SockJSManager::default();

    // Open the session and finish the one-shot open poll.
    let (mut t, _) = poll(&mut m, "abc", 1, 0);
    let rel = t.handle_message(ChannelItem::Ready);
    let rec = rel.expect("the one-shot open poll releases at once");
    assert_eq!(rec.state, SessionState::Running);
    m.handle_release(Release { ses: rec }, 0);

    // An inbound send is routed, the context queues the reply frame on the
    // parked record.
    let routed = m
        .handle_session_message(SessionMessage {
            sid: "abc".to_string(),
            msg: Message("hello".to_string()),
        })
        .unwrap();
    assert_eq!(routed.0, "hello");

    let mut ctx = SockJSContext::new("abc".to_string());
    ctx.send("hello");
    let (rec2, evs) = m
        .handle_acquire(Acquire::new("abc".to_string(), 1), 1)
        .unwrap();
    assert_eq!(evs, vec![SockJSChannel::Acquired]);
    let mut rec2 = rec2;
    for f in ctx.drain() {
        rec2.add(sockjs::manager::RecordEntry::Frame(f));
    }

    // The next poll replays the buffered frame.
    let mut t2 = match Xhr::init(HttpMethod::Post) {
        XhrInit::Transport(t) => t,
        _ => panic!("POST must start a transport"),
    };
    let rel = t2.init_transport(Ok(rec2));
    assert!(rel.is_none());
    assert_eq!(t2.out, vec!["a[\"hello\"]\n".to_string()]);
}

#[test]
fn frames_are_buffered_before_ready_and_replayed_in_order() {
    let mut m = SockJSManager::default();
    let (rec, _) = m
        .handle_acquire(Acquire::new("ord".to_string(), 1), 0)
        .unwrap();
    let mut rec = rec;
    rec.state = SessionState::Running;

    let (mut t, _) = RawWebsocket::init();
    t.rec = Some(rec);
    // Not ready yet: live frames go to the buffer.
    t.handle_message(ChannelItem::Frame(Frame::Message("one".to_string())));
    t.handle_message(ChannelItem::Frame(Frame::Message("two".to_string())));
    assert!(t.out.is_empty());
    // Ready: the buffer is replayed in order, then live frames flow.
    let rel = t.handle_message(ChannelItem::Ready);
    assert!(rel.is_none());
    t.handle_message(ChannelItem::Frame(Frame::Message("three".to_string())));
    let texts: Vec<&str> = t
        .out
        .iter()
        .filter_map(|u| match u {
            WsUnit::Text(s) => Some(s.as_str()),
            _ => None,
        })
        .collect();
    assert_eq!(texts, vec!["one", "two", "three"]);
}

#[test]
fn broadcast_reaches_attached_and_parked_sessions() {
    let mut m = SockJSManager::default();

    // "a" is attached; "b" is parked.
    let (_rec_a, _) = m
        .handle_acquire(Acquire::new("a".to_string(), 10), 0)
        .unwrap();
    let (mut rec_b, _) = m
        .handle_acquire(Acquire::new("b".to_string(), 20), 0)
        .unwrap();
    rec_b.state = SessionState::Running;
    m.handle_release(Release { ses: rec_b }, 0);

    let dest = m.handle_broadcast(&Broadcast::new(Frame::Message("ping".to_string())));
    assert_eq!(dest, vec![10]);

    // The attached transport writes the frame at once.
    let (mut t_a, _) = RawWebsocket::init();
    t_a.rec = Some(Record {
        sid: "a".to_string(),
        state: SessionState::Running,
        buffer: Vec::new(),
    });
    t_a.handle_broadcast(&Frame::Message("ping".to_string()));
    assert!(matches!(&t_a.out[0], WsUnit::Text(s) if s == "ping"));

    // The parked session sees it in the replay after the next acquire.
    let (rec_b, _) = m
        .handle_acquire(Acquire::new("b".to_string(), 21), 1)
        .unwrap();
    assert_eq!(rec_b.buffer.len(), 1);
    let (mut t_b, _) = RawWebsocket::init();
    let rel = t_b.init_transport(Ok(rec_b));
    assert!(rel.is_none());
    assert!(matches!(&t_b.out[0], WsUnit::Text(s) if s == "ping"));
}

#[test]
fn idle_sessions_expire_and_reopen_fresh() {
    let mut m = SockJSManager::default();
    let (mut rec, _) = m
        .handle_acquire(Acquire::new("xyz".to_string(), 1), 0)
        .unwrap();
    rec.state = SessionState::Running;
    let evs = m.handle_release(Release { ses: rec }, 0);
    assert_eq!(evs, vec![SockJSChannel::Released]);

    // Within the idle window nothing is reaped.
    assert!(m.hb(5).is_empty());
    assert_eq!(m.entries.len(), 1);

    // Past the window the parked session is reaped; its context is told
    // Closed(Expired).
    let gone = m.hb(11);
    assert_eq!(gone, vec!["xyz".to_string()]);
    assert!(m.entries.is_empty());

    // A later poll opens a brand-new session with a fresh open frame.
    let (rec2, evs) = m
        .handle_acquire(Acquire::new("xyz".to_string(), 2), 12)
        .unwrap();
    assert_eq!(evs, vec![SockJSChannel::Opened, SockJSChannel::Acquired]);
    assert_eq!(rec2.state, SessionState::New);
}

#[test]
fn open_frame_appears_only_on_the_first_acquire() {
    let mut m = SockJSManager::default();
    let (mut t, _) = poll(&mut m, "once", 1, 0);
    assert_eq!(t.out, vec!["o\n".to_string()]);
    let rec = t.handle_message(ChannelItem::Ready).unwrap();
    m.handle_release(Release { ses: rec }, 0);

    // The session is running now: a later poll must not open it again.
    let (t2, evs) = poll(&mut m, "once", 2, 1);
    assert_eq!(evs, vec![SockJSChannel::Acquired]);
    assert!(t2.out.iter().all(|line| line != "o\n"));
}

#[test]
fn release_events_follow_the_record_state() {
    let mut m = SockJSManager::default();

    let (mut rec, _) = m
        .handle_acquire(Acquire::new("c1".to_string(), 1), 0)
        .unwrap();
    rec.close();
    let evs = m.handle_release(Release { ses: rec }, 0);
    assert_eq!(evs, vec![SockJSChannel::Closed(CloseReason::Normal)]);

    let (mut rec, _) = m
        .handle_acquire(Acquire::new("c2".to_string(), 1), 0)
        .unwrap();
    rec.state = SessionState::Running;
    rec.interrupted();
    let evs = m.handle_release(Release { ses: rec }, 0);
    assert_eq!(evs, vec![SockJSChannel::Closed(CloseReason::Interrupted)]);

    // A record for a row that already expired is dropped silently.
    let stray = Record {
        sid: "ghost".to_string(),
        state: SessionState::Running,
        buffer: Vec::new(),
    };
    assert!(m.handle_release(Release { ses: stray }, 0).is_empty());
}

#[test]
fn unknown_sid_message_is_an_error() {
    let mut m = SockJSManager::default();
    assert!(m
        .handle_session_message(SessionMessage {
            sid: "nope".to_string(),
            msg: Message("x".to_string()),
        })
        .is_err());
}

#[test]
fn context_close_is_idempotent_and_stops_sends() {
    let mut ctx = SockJSContext::new("s".to_string());
    ctx.send("a");
    ctx.close(CloseCode::Normal);
    ctx.close(CloseCode::GoAway);
    ctx.send("b");
    let frames = ctx.drain();
    assert_eq!(frames.len(), 2);
    assert!(matches!(&frames[0], Frame::Message(s) if s == "a"));
    assert!(matches!(&frames[1], Frame::Close(CloseCode::Normal)));
}

#[test]
fn websocket_close_then_reacquire_sees_goaway() {
    let mut m = SockJSManager::default();
    let (rec, _) = m
        .handle_acquire(Acquire::new("ws".to_string(), 1), 0)
        .unwrap();
    let (mut t, _) = RawWebsocket::init();
    let rel = t.init_transport(Ok(rec));
    assert!(rel.is_none());
    t.handle_message(ChannelItem::Ready);

    // The user handler closes: the wire gets the websocket close and the
    // record goes terminal.
    t.handle_message(ChannelItem::Frame(Frame::Close(CloseCode::Normal)));
    assert!(matches!(t.out.last(), Some(WsUnit::Close(3000, r)) if r == "Go away!"));
    let rec = t.stopping().unwrap();
    assert_eq!(rec.state, SessionState::Closed);
    let evs = m.handle_release(Release { ses: rec }, 0);
    assert_eq!(evs, vec![SockJSChannel::Closed(CloseReason::Normal)]);

    // Within the idle window a reacquire still gets the record, and the
    // transport answers with a close and hands it straight back.
    let (rec, evs) = m
        .handle_acquire(Acquire::new("ws".to_string(), 2), 1)
        .unwrap();
    assert_eq!(evs, vec![SockJSChannel::Acquired]);
    assert_eq!(rec.state, SessionState::Closed);
    let (mut t2, _) = RawWebsocket::init();
    let rel = t2.init_transport(Ok(rec));
    assert!(matches!(t2.out.last(), Some(WsUnit::Close(3000, _))));
    let rec = rel.expect("a terminal record goes straight back");
    m.handle_release(Release { ses: rec }, 1);
}

#[test]
fn interrupted_disconnect_marks_the_record() {
    let mut m = SockJSManager::default();
    let (rec, _) = m
        .handle_acquire(Acquire::new("i1".to_string(), 1), 0)
        .unwrap();
    let mut t = match Xhr::init(HttpMethod::Post) {
        XhrInit::Transport(t) => t,
        _ => panic!("POST must start a transport"),
    };
    let mut rec = rec;
    rec.state = SessionState::Running;
    t.rec = Some(rec);
    let rec = t.stopping(false).unwrap();
    assert_eq!(rec.state, SessionState::Interrupted);
}

#[test]
fn user_close_flows_from_the_handler_to_the_raw_wire() {
    let mut m = SockJSManager::default();
    let (rec, _) = m
        .handle_acquire(Acquire::new("uc".to_string(), 1), 0)
        .unwrap();
    let (mut t, _) = RawWebsocket::init();
    assert!(t.init_transport(Ok(rec)).is_none());
    t.handle_message(ChannelItem::Ready);

    // The user handler closes with its own code and reason.
    let mut ctx = SockJSContext::new("uc".to_string());
    ctx.close(CloseCode::Other(3000, "bye".to_string()));
    for f in ctx.drain() {
        t.handle_message(ChannelItem::Frame(f));
    }
    assert!(matches!(t.out.last(), Some(WsUnit::Close(3000, r)) if r == "bye"));

    // The record went terminal; the registry reports a normal close.
    let rec = t.stopping().unwrap();
    assert_eq!(rec.state, SessionState::Closed);
    let evs = m.handle_release(Release { ses: rec }, 0);
    assert_eq!(evs, vec![SockJSChannel::Closed(CloseReason::Normal)]);
}
