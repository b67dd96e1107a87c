//! Wire codec behaviour: exact frame lines, script blocks, websocket units,
//! and the decode round trips.

use sockjs::manager::{Acquire, Record, SockJSManager};
use sockjs::protocol::{CloseCode, Frame};
use sockjs::transports::htmlfile::{decode_script_block, HtmlFileInit, HTMLFile};
use sockjs::transports::rawwebsocket::{RawWebsocket, WsMessage, WsUnit};
use sockjs::transports::websocket::Websocket;
use sockjs::transports::xhrstreaming::{XhrStreaming, XhrStreamingInit};
use sockjs::transports::eventsource::{EventSource, EventSourceInit};
use sockjs::transports::jsonp::{jsonp_send_ok_body, Jsonp, JsonpInit};
use sockjs::transports::xhr::{decode_xhr_line, Decoded, Xhr, XhrInit};
use sockjs::transports::{parse_send_body, payload_error_body, HttpMethod, SendResult};

fn fresh_record(sid: &str) -> Record {
    let mut m = SockJSManager::default();
    let (rec, _) = m
        .handle_acquire(Acquire::new(sid.to_string(), 1), 0)
        .unwrap();
    rec
}

fn fresh_xhr() -> Xhr {
    match Xhr::init(HttpMethod::Post) {
        XhrInit::Transport(t) => t,
        _ => panic!("POST must start a transport"),
    }
}

#[test]
fn close_codes_carry_their_numbers_and_reasons() {
    assert_eq!(CloseCode::Normal.num(), 3000);
    assert_eq!(CloseCode::GoAway.num(), 3000);
    assert_eq!(CloseCode::Acquired.num(), 2010);
    assert_eq!(CloseCode::Interrupted.num(), 1002);
    assert_eq!(CloseCode::InternalError.num(), 1011);
    assert_eq!(CloseCode::GoAway.reason(), "Go away!");
    assert_eq!(CloseCode::Acquired.reason(), "Another connection still open");
    assert_eq!(CloseCode::Interrupted.reason(), "Connection interrupted");
    assert_eq!(CloseCode::InternalError.reason(), "Internal error");
}

#[test]
fn xhr_writes_each_frame_as_one_line() {
    let mut rec = fresh_record("s1");

    let mut t = fresh_xhr();
    assert!(matches!(t.send(&Frame::Open, &mut rec), SendResult::Stop));
    assert_eq!(t.out, vec!["o\n".to_string()]);
    assert!(t.eof);

    let mut t = fresh_xhr();
    t.send(&Frame::Heartbeat, &mut rec);
    assert_eq!(t.out, vec!["h\n".to_string()]);

    let mut t = fresh_xhr();
    t.send(&Frame::Message("hello".to_string()), &mut rec);
    assert_eq!(t.out, vec!["a[\"hello\"]\n".to_string()]);

    let mut t = fresh_xhr();
    t.send(&Frame::MessageVec("[\"a\",\"b\"]".to_string()), &mut rec);
    assert_eq!(t.out, vec!["a[\"a\",\"b\"]\n".to_string()]);
}

#[test]
fn xhr_close_line_closes_the_record() {
    let mut rec = fresh_record("s2");
    let mut t = fresh_xhr();
    let r = t.send(&Frame::Close(CloseCode::GoAway), &mut rec);
    assert!(matches!(r, SendResult::Stop));
    assert_eq!(t.out, vec!["c[3000,\"Go away!\"]\n".to_string()]);
    assert_eq!(rec.state, sockjs::protocol::SessionState::Closed);
}

#[test]
fn xhr_rejects_binary_with_internal_error_close() {
    let mut rec = fresh_record("s3");
    let mut t = fresh_xhr();
    t.send(&Frame::MessageBlob(vec![1, 2, 3]), &mut rec);
    assert_eq!(t.out, vec!["c[1011,\"Internal error\"]\n".to_string()]);
    assert_eq!(rec.state, sockjs::protocol::SessionState::Closed);
}

#[test]
fn xhr_message_payload_escaping_goes_through_json() {
    let mut rec = fresh_record("s4");
    let mut t = fresh_xhr();
    t.send(&Frame::Message("say \"hi\"\n".to_string()), &mut rec);
    assert_eq!(t.out, vec!["a[\"say \\\"hi\\\"\\n\"]\n".to_string()]);
}

#[test]
fn xhr_lines_decode_back_to_their_frames() {
    assert!(matches!(decode_xhr_line("o\n"), Some(Decoded::Open)));
    assert!(matches!(decode_xhr_line("h\n"), Some(Decoded::Heartbeat)));
    match decode_xhr_line("a[\"hello\"]\n") {
        Some(Decoded::Msgs(v)) => assert_eq!(v, vec!["hello".to_string()]),
        other => panic!("message line decoded to {:?}", other),
    }
    match decode_xhr_line("a[\"say \\\"hi\\\"\\n\"]\n") {
        Some(Decoded::Msgs(v)) => assert_eq!(v, vec!["say \"hi\"\n".to_string()]),
        other => panic!("escaped line decoded to {:?}", other),
    }
    match decode_xhr_line("c[3000,\"Go away!\"]\n") {
        Some(Decoded::Close(c)) => assert_eq!(c.num(), 3000),
        other => panic!("close line decoded to {:?}", other),
    }
    assert!(decode_xhr_line("").is_none());
    assert!(decode_xhr_line("x\n").is_none());
    assert!(decode_xhr_line("a[nonsense\n").is_none());
}

#[test]
fn send_body_must_be_a_json_array_of_strings() {
    assert_eq!(
        parse_send_body("[\"hello\"]"),
        Ok(vec!["hello".to_string()])
    );
    assert_eq!(
        parse_send_body("[\"a\",\"b\"]"),
        Ok(vec!["a".to_string(), "b".to_string()])
    );
    assert_eq!(parse_send_body("[]"), Ok(vec![]));
    assert!(parse_send_body("hello").is_err());
    assert!(parse_send_body("{\"a\":1}").is_err());
    assert!(parse_send_body("[1,2]").is_err());
    assert_eq!(payload_error_body(), "Payload expected.");
}

#[test]
fn htmlfile_wraps_frames_in_script_blocks() {
    let mut rec = fresh_record("s5");
    let t = HTMLFile::init(HttpMethod::Get, Some("callback".to_string()), 131072);
    let (mut t, prelude) = match t {
        HtmlFileInit::Transport(t, p) => (t, p),
        other => panic!("valid callback refused: {:?}", other),
    };
    assert!(prelude.contains("var c = parent.callback;"));
    assert!(prelude.ends_with(' '));
    assert_eq!(prelude.len(), prelude.trim_end_matches(' ').len() + 1024);

    let r = t.send(&Frame::Open, &mut rec);
    assert!(matches!(r, SendResult::Continue));
    assert_eq!(t.out, vec!["<script>\np(\"o\");\n</script>\r\n".to_string()]);
    assert_eq!(t.size, "\"o\"".len() + 25);

    t.send(&Frame::Message("hi".to_string()), &mut rec);
    assert_eq!(t.out[1], "<script>\np(\"a[\\\"hi\\\"]\");\n</script>\r\n");
}

#[test]
fn htmlfile_validates_the_callback() {
    assert!(matches!(
        HTMLFile::init(HttpMethod::Get, Some("bad name".to_string()), 131072),
        HtmlFileInit::InvalidCallback
    ));
    assert!(matches!(
        HTMLFile::init(HttpMethod::Get, None, 131072),
        HtmlFileInit::CallbackRequired
    ));
    assert!(matches!(
        HTMLFile::init(HttpMethod::Post, Some("ok".to_string()), 131072),
        HtmlFileInit::NotFound
    ));
    assert!(matches!(
        HTMLFile::init(HttpMethod::Get, Some("".to_string()), 131072),
        HtmlFileInit::InvalidCallback
    ));
    assert!(matches!(
        HTMLFile::init(HttpMethod::Get, Some("a.B_9".to_string()), 131072),
        HtmlFileInit::Transport(..)
    ));
    assert_eq!(
        sockjs::transports::htmlfile::invalid_callback_body(),
        "invalid \"callback\" parameter"
    );
    assert_eq!(
        sockjs::transports::htmlfile::callback_required_body(),
        "\"callback\" parameter required"
    );
}

#[test]
fn htmlfile_stops_at_the_byte_cap() {
    let mut rec = fresh_record("s6");
    let t = HTMLFile::init(HttpMethod::Get, Some("cb".to_string()), 10);
    let (mut t, _) = match t {
        HtmlFileInit::Transport(t, p) => (t, p),
        _ => panic!("valid callback refused"),
    };
    let r = t.send(&Frame::Message("a long enough payload".to_string()), &mut rec);
    assert!(matches!(r, SendResult::Stop));
    assert!(t.eof);
}

#[test]
fn htmlfile_blocks_decode_back_to_their_bodies() {
    assert_eq!(
        decode_script_block("<script>\np(\"o\");\n</script>\r\n"),
        Some("o".to_string())
    );
    assert_eq!(
        decode_script_block("<script>\np(\"a[\\\"hi\\\"]\");\n</script>\r\n"),
        Some("a[\"hi\"]".to_string())
    );
    assert!(decode_script_block("nonsense").is_none());
}

#[test]
fn raw_websocket_writes_bare_units() {
    let mut rec = fresh_record("s7");
    let (mut t, _) = RawWebsocket::init();
    t.send(&Frame::Message("x".to_string()), &mut rec);
    t.send(&Frame::Heartbeat, &mut rec);
    t.send(&Frame::Open, &mut rec);
    t.send(&Frame::MessageBlob(vec![7]), &mut rec);
    t.send(&Frame::Close(CloseCode::Normal), &mut rec);
    assert_eq!(t.out.len(), 4);
    assert!(matches!(&t.out[0], WsUnit::Text(s) if s == "x"));
    assert!(matches!(&t.out[1], WsUnit::Ping));
    assert!(matches!(&t.out[2], WsUnit::Binary(b) if b == &vec![7u8]));
    assert!(matches!(&t.out[3], WsUnit::Close(3000, r) if r == "Go away!"));
    assert_eq!(rec.state, sockjs::protocol::SessionState::Closed);
}

#[test]
fn raw_websocket_sid_is_decimal() {
    let (_, sid) = RawWebsocket::init();
    assert!(!sid.is_empty());
    assert!(sid.chars().all(|c| c.is_ascii_digit()));
}

#[test]
fn raw_websocket_inbound_dispatch() {
    let mut m = SockJSManager::default();
    let (rec, _) = m
        .handle_acquire(Acquire::new("ws1".to_string(), 1), 0)
        .unwrap();
    let (mut t, _) = RawWebsocket::init();
    t.rec = Some(rec);

    let sm = t.handle(WsMessage::Text("hi".to_string())).unwrap();
    assert_eq!(sm.sid, "ws1");
    assert_eq!(sm.msg.0, "hi");

    assert!(t.handle(WsMessage::Text("".to_string())).is_none());
    assert!(t.handle(WsMessage::Binary(vec![1])).is_none());
    assert!(t.handle(WsMessage::Ping(vec![2])).is_none());
    assert!(matches!(t.out.last(), Some(WsUnit::Pong(p)) if p == &vec![2u8]));
}

#[test]
fn sockjs_websocket_frames_mirror_the_http_wire() {
    let mut m = SockJSManager::default();
    let (rec, _) = m
        .handle_acquire(Acquire::new("sw1".to_string(), 1), 0)
        .unwrap();
    let mut t = Websocket::init();
    let rel = t.init_transport(Ok(rec));
    assert!(rel.is_none());
    assert!(matches!(&t.out[0], WsUnit::Text(s) if s == "o"));

    let mut rec = Record {
        sid: "sw1".to_string(),
        state: sockjs::protocol::SessionState::Running,
        buffer: Vec::new(),
    };
    t.send(&Frame::Message("hi".to_string()), &mut rec);
    assert!(matches!(&t.out[1], WsUnit::Text(s) if s == "a[\"hi\"]"));
    t.send(&Frame::Close(CloseCode::Normal), &mut rec);
    assert!(matches!(&t.out[2], WsUnit::Text(s) if s == "c[3000,\"Go away!\"]"));
    assert!(matches!(&t.out[3], WsUnit::Close(3000, r) if r == "Go away!"));
    assert_eq!(rec.state, sockjs::protocol::SessionState::Closed);
}

#[test]
fn sockjs_websocket_splits_inbound_arrays() {
    let mut t = Websocket::init();
    t.rec = Some(Record {
        sid: "sw2".to_string(),
        state: sockjs::protocol::SessionState::Running,
        buffer: Vec::new(),
    });
    let msgs = t.handle_text("[\"x\",\"y\"]").unwrap();
    assert_eq!(msgs.len(), 2);
    assert_eq!(msgs[0].sid, "sw2");
    assert_eq!(msgs[0].msg.0, "x");
    assert_eq!(msgs[1].msg.0, "y");

    assert!(t.handle_text("").unwrap().is_empty());
    assert!(t.handle_text("junk").is_err());
}

#[test]
fn xhr_streaming_prelude_then_lines() {
    let mut m = SockJSManager::default();
    let (rec, _) = m
        .handle_acquire(Acquire::new("st1".to_string(), 1), 0)
        .unwrap();

    let (mut t, prelude) = match XhrStreaming::init(HttpMethod::Post, 131072) {
        XhrStreamingInit::Transport(t, p) => (t, p),
        _ => panic!("POST must start a transport"),
    };
    assert_eq!(prelude.len(), 2049);
    assert!(prelude[..2048].chars().all(|c| c == 'h'));
    assert!(prelude.ends_with('\n'));

    // The open frame streams, the response stays open, and a routed send
    // shows up as the next chunk.
    let rel = t.init_transport(Ok(rec));
    assert!(rel.is_none());
    assert_eq!(t.out, vec!["o\n".to_string()]);
    let rel = t.handle_message(sockjs::transports::ChannelItem::Ready);
    assert!(rel.is_none());
    let rel = t.handle_message(sockjs::transports::ChannelItem::Frame(Frame::Message(
        "hello".to_string(),
    )));
    assert!(rel.is_none());
    assert_eq!(t.out[1], "a[\"hello\"]\n");
    assert!(!t.eof);
}

#[test]
fn xhr_streaming_stops_at_the_byte_cap_and_on_close() {
    let mut rec = fresh_record("st2");
    rec.state = sockjs::protocol::SessionState::Running;

    let (mut t, _) = match XhrStreaming::init(HttpMethod::Post, 8) {
        XhrStreamingInit::Transport(t, p) => (t, p),
        _ => panic!("POST must start a transport"),
    };
    let r = t.send(&Frame::Message("quite a long payload".to_string()), &mut rec);
    assert!(matches!(r, SendResult::Stop));
    assert!(t.eof);

    let (mut t2, _) = match XhrStreaming::init(HttpMethod::Post, 131072) {
        XhrStreamingInit::Transport(t, p) => (t, p),
        _ => panic!("POST must start a transport"),
    };
    let r = t2.send(&Frame::Close(CloseCode::GoAway), &mut rec);
    assert!(matches!(r, SendResult::Stop));
    assert_eq!(t2.out, vec!["c[3000,\"Go away!\"]\n".to_string()]);
    assert_eq!(rec.state, sockjs::protocol::SessionState::Closed);

    assert!(matches!(
        XhrStreaming::init(HttpMethod::Options, 131072),
        XhrStreamingInit::Options
    ));
    assert!(matches!(
        XhrStreaming::init(HttpMethod::Get, 131072),
        XhrStreamingInit::NotFound
    ));
}

#[test]
fn eventsource_wraps_frames_in_events() {
    let mut rec = fresh_record("es1");
    let mut t = match EventSource::init(HttpMethod::Get, 131072) {
        EventSourceInit::Transport(t) => t,
        _ => panic!("GET must start a transport"),
    };
    assert!(matches!(
        EventSource::init(HttpMethod::Post, 131072),
        EventSourceInit::NotFound
    ));

    let r = t.send(&Frame::Open, &mut rec);
    assert!(matches!(r, SendResult::Continue));
    t.send(&Frame::Message("hi".to_string()), &mut rec);
    assert_eq!(
        t.out,
        vec![
            "data: o\r\n\r\n".to_string(),
            "data: a[\"hi\"]\r\n\r\n".to_string(),
        ]
    );

    let r = t.send(&Frame::Close(CloseCode::GoAway), &mut rec);
    assert!(matches!(r, SendResult::Stop));
    assert_eq!(t.out[2], "data: c[3000,\"Go away!\"]\r\n\r\n");
    assert!(t.eof);
}

#[test]
fn jsonp_wraps_frames_in_callback_calls() {
    let mut rec = fresh_record("jp1");
    let mut t = match Jsonp::init(HttpMethod::Get, Some("cb".to_string())) {
        JsonpInit::Transport(t) => t,
        _ => panic!("valid callback refused"),
    };
    let r = t.send(&Frame::Open, &mut rec);
    assert!(matches!(r, SendResult::Stop));
    assert_eq!(t.out, vec!["cb(\"o\");\r\n".to_string()]);
    assert!(t.eof);

    let mut t2 = match Jsonp::init(HttpMethod::Get, Some("cb".to_string())) {
        JsonpInit::Transport(t) => t,
        _ => panic!("valid callback refused"),
    };
    t2.send(&Frame::Message("hi".to_string()), &mut rec);
    assert_eq!(t2.out, vec!["cb(\"a[\\\"hi\\\"]\");\r\n".to_string()]);

    assert!(matches!(
        Jsonp::init(HttpMethod::Get, Some("bad name".to_string())),
        JsonpInit::InvalidCallback
    ));
    assert!(matches!(
        Jsonp::init(HttpMethod::Get, None),
        JsonpInit::CallbackRequired
    ));
    assert!(matches!(
        Jsonp::init(HttpMethod::Post, Some("cb".to_string())),
        JsonpInit::NotFound
    ));
    assert_eq!(jsonp_send_ok_body(), "ok");
}

#[test]
fn user_close_codes_reach_the_wire() {
    // The one-shot line carries the user's code and reason, JSON-quoted.
    let mut rec = fresh_record("u1");
    let mut t = fresh_xhr();
    t.send(
        &Frame::Close(CloseCode::Other(3000, "bye".to_string())),
        &mut rec,
    );
    assert_eq!(t.out, vec!["c[3000,\"bye\"]\n".to_string()]);
    assert_eq!(rec.state, sockjs::protocol::SessionState::Closed);

    // The raw websocket close carries the user's code and reason verbatim.
    let mut rec = fresh_record("u2");
    let (mut w, _) = RawWebsocket::init();
    w.send(
        &Frame::Close(CloseCode::Other(3000, "bye".to_string())),
        &mut rec,
    );
    assert!(matches!(&w.out[0], WsUnit::Close(3000, r) if r == "bye"));

    // A named close keeps its fixed reason on the same wire.
    let (mut w2, _) = RawWebsocket::init();
    w2.send(&Frame::Close(CloseCode::Interrupted), &mut rec);
    assert!(matches!(&w2.out[0], WsUnit::Close(1002, r) if r == "Connection interrupted"));

    // The SockJS websocket keeps its fixed close reason after the close text
    // frame, whatever the user gave.
    let mut rec2 = fresh_record("u3");
    let mut sw = Websocket::init();
    sw.send(
        &Frame::Close(CloseCode::Other(3000, "bye".to_string())),
        &mut rec2,
    );
    assert!(matches!(&sw.out[0], WsUnit::Text(s) if s == "c[3000,\"bye\"]"));
    assert!(matches!(&sw.out[1], WsUnit::Close(3000, r) if r == "Go away!"));

    assert_eq!(CloseCode::Other(2500, "why".to_string()).num(), 2500);
    assert_eq!(CloseCode::Other(2500, "why".to_string()).reason(), "why");
}
