//! The SockJS websocket transport: every frame goes out as a text frame in
//! the HTTP wire form (`o`, `h`, `a[...]`, `c[n,"r"]`), and a close frame is
//! followed by the websocket close itself. Inbound text frames carry a JSON
//! array of payloads and are split into one session message each.

use vstd::prelude::*;

use crate::manager::{Record, RecordEntry, SessionMessage};
use crate::protocol::{CloseCode, CloseCodeView, Frame, FrameView, Message, SessionError,
    SessionState};
use crate::transports::rawwebsocket::{lemma_ws_views_push, ws_views, WsUnit, WsUnitView};
use crate::transports::{entry_views, frame_body, frame_body_str, lemma_entry_views_index,
    lemma_entry_views_len, parse_send_body, ChannelItem, Flags, SendResult};

verus! {

/// What one frame writes on this wire: its HTTP wire form as a text frame,
/// and for a close frame the websocket close behind it.
pub open spec fn sockjs_ws_units(f: FrameView) -> Seq<WsUnitView> {
    match f {
        FrameView::Close(c) => seq![
            WsUnitView::Text(frame_body(f)),
            WsUnitView::Close(c.spec_num(), "Go away!"@),
        ],
        FrameView::MessageBlob(b) => seq![WsUnitView::Binary(b)],
        _ => seq![WsUnitView::Text(frame_body(f))],
    }
}

/// A close frame closes the record; anything else leaves it alone.
pub open spec fn sockjs_ws_state_after(f: FrameView, st: SessionState) -> SessionState {
    if f is Close {
        SessionState::Closed
    } else {
        st
    }
}

/// What a sequence of frames writes on this wire, in order.
pub open spec fn sockjs_ws_run(fs: Seq<FrameView>) -> Seq<WsUnitView>
    decreases fs.len(),
{
    if fs.len() == 0 {
        Seq::empty()
    } else {
        sockjs_ws_run(fs.drop_last()) + sockjs_ws_units(fs.last())
    }
}

/// The record state after a sequence of frames left on this wire.
pub open spec fn sockjs_ws_run_state(fs: Seq<FrameView>, st: SessionState) -> SessionState
    decreases fs.len(),
{
    if fs.len() == 0 {
        st
    } else {
        sockjs_ws_state_after(fs.last(), sockjs_ws_run_state(fs.drop_last(), st))
    }
}

/// The SockJS websocket transport for one connection. `out` is what it wrote
/// to the socket, in order.
#[derive(Debug)]
pub struct Websocket {
    pub rec: Option<Record>,
    pub flags: Flags,
    pub out: Vec<WsUnit>,
}

impl Websocket {
    /// Starts a transport for a fresh upgrade; the session id came with the
    /// request path.
    pub fn init() -> (r: Websocket)
        ensures
            r.rec is None,
            !r.flags.ready,
            !r.flags.release,
            r.out@.len() == 0,
    {
        Websocket { rec: None, flags: Flags::empty(), out: Vec::new() }
    }

    /// Writes one frame as a text frame in the HTTP wire form; a close frame
    /// closes the record and is followed by the websocket close. This wire
    /// never stops on size.
    pub fn send(&mut self, msg: &Frame, record: &mut Record) -> (r: SendResult)
        ensures
            r == SendResult::Continue,
            final(self).rec == old(self).rec,
            final(self).flags == old(self).flags,
            ws_views(final(self).out@) == ws_views(old(self).out@) + sockjs_ws_units(msg@),
            final(record).sid == old(record).sid,
            final(record).buffer == old(record).buffer,
            final(record).state == sockjs_ws_state_after(msg@, old(record).state),
    {
        let ghost out0 = self.out@;
        match msg {
            Frame::MessageBlob(b) => {
                let u = WsUnit::Binary(crate::protocol::clone_bytes(b));
                self.out.push(u);
                proof {
                    lemma_ws_views_push(out0, u);
                }
            },
            Frame::Close(c) => {
                record.close();
                let t = WsUnit::Text(frame_body_str(msg));
                self.out.push(t);
                let u = WsUnit::Close(c.num(), "Go away!".to_owned());
                self.out.push(u);
                proof {
                    lemma_ws_views_push(out0, t);
                    lemma_ws_views_push(out0.push(t), u);
                    assert(ws_views(self.out@) =~= ws_views(out0) + sockjs_ws_units(msg@));
                }
            },
            _ => {
                let t = WsUnit::Text(frame_body_str(msg));
                self.out.push(t);
                proof {
                    lemma_ws_views_push(out0, t);
                }
            },
        };
        proof {
            if !(msg@ is Close) {
                assert(ws_views(self.out@) =~= ws_views(old(self).out@) + sockjs_ws_units(
                    msg@,
                ));
            }
        }
        SendResult::Continue
    }

    /// Writes the close text frame and the websocket close for a refused
    /// acquire, without a record.
    pub fn send_close(&mut self, code: CloseCode)
        ensures
            final(self).rec == old(self).rec,
            final(self).flags == old(self).flags,
            ws_views(final(self).out@) == ws_views(old(self).out@) + sockjs_ws_units(
                FrameView::Close(code@),
            ),
    {
        let ghost out0 = self.out@;
        let num = code.num();
        let t = WsUnit::Text(frame_body_str(&Frame::Close(code)));
        self.out.push(t);
        let u = WsUnit::Close(num, "Go away!".to_owned());
        self.out.push(u);
        proof {
            lemma_ws_views_push(out0, t);
            lemma_ws_views_push(out0.push(t), u);
            assert(ws_views(self.out@) =~= ws_views(out0) + sockjs_ws_units(
                FrameView::Close(code@),
            ));
        }
    }

    /// Writes one heartbeat text frame.
    pub fn send_heartbeat(&mut self, record: &mut Record) -> (r: SendResult)
        ensures
            r == SendResult::Continue,
            final(self).rec == old(self).rec,
            final(self).flags == old(self).flags,
            ws_views(final(self).out@) == ws_views(old(self).out@) + sockjs_ws_units(
                FrameView::Heartbeat,
            ),
            *final(record) == *old(record),
    {
        let ghost out0 = self.out@;
        let t = WsUnit::Text(frame_body_str(&Frame::Heartbeat));
        self.out.push(t);
        proof {
            lemma_ws_views_push(out0, t);
        }
        SendResult::Continue
    }

    /// Replays every buffered frame in order; this wire never stops early.
    pub fn send_buffered(&mut self, record: &mut Record) -> (r: SendResult)
        ensures
            r == SendResult::Continue,
            final(self).rec == old(self).rec,
            final(self).flags == old(self).flags,
            ws_views(final(self).out@) == ws_views(old(self).out@) + sockjs_ws_run(
                entry_views(old(record).buffer@),
            ),
            final(record).sid == old(record).sid,
            final(record).buffer@ == Seq::<RecordEntry>::empty(),
            final(record).state == sockjs_ws_run_state(
                entry_views(old(record).buffer@),
                old(record).state,
            ),
    {
        let ghost all = entry_views(old(record).buffer@);
        let ghost n0 = old(record).buffer@.len() as int;
        proof {
            lemma_entry_views_len(old(record).buffer@);
        }
        let ghost k: int = 0;
        while record.buffer.len() > 0
            invariant
                0 <= k <= n0,
                n0 == old(record).buffer@.len(),
                all == entry_views(old(record).buffer@),
                all.len() == n0,
                record.buffer@ =~= old(record).buffer@.subrange(k, n0),
                self.rec == old(self).rec,
                self.flags == old(self).flags,
                ws_views(self.out@) =~= ws_views(old(self).out@) + sockjs_ws_run(
                    all.subrange(0, k),
                ),
                record.sid == old(record).sid,
                record.state == sockjs_ws_run_state(all.subrange(0, k), old(record).state),
            decreases record.buffer@.len(),
        {
            proof {
                lemma_entry_views_index(old(record).buffer@, k);
                assert(record.buffer@[0] == old(record).buffer@[k]);
            }
            let entry = record.buffer.remove(0);
            let res = self.send(entry.as_ref(), record);
            proof {
                k = k + 1;
                let p0 = all.subrange(0, k - 1);
                let p1 = all.subrange(0, k);
                assert(p1.drop_last() =~= p0);
                assert(p1.last() == all[k - 1]);
                assert(record.buffer@ =~= old(record).buffer@.subrange(k, n0));
                assert(ws_views(self.out@) =~= ws_views(old(self).out@) + sockjs_ws_run(p1));
            }
        }
        proof {
            assert(k == n0);
            assert(all.subrange(0, n0) =~= all);
            assert(record.buffer@ =~= Seq::<RecordEntry>::empty());
        }
        SendResult::Continue
    }

    /// Runs the shared transport state machine for one channel item, as the
    /// raw websocket does; the open frame is written on this wire.
    pub fn handle_message(&mut self, msg: ChannelItem) -> (rel: Option<Record>)
        ensures
            msg is Frame && old(self).rec is None ==> *final(self) == *old(self) && rel is None,
            msg matches ChannelItem::Frame(f) ==> ((old(self).rec is Some && !old(
                self,
            ).flags.ready) ==> {
                &&& rel is None
                &&& final(self).flags == old(self).flags
                &&& final(self).out == old(self).out
                &&& final(self).rec matches Some(r1) && r1.sid == old(self).rec.unwrap().sid
                    && r1.state == old(self).rec.unwrap().state && r1.buffer@ == old(
                    self,
                ).rec.unwrap().buffer@.push(RecordEntry::Frame(f))
            }),
            msg matches ChannelItem::Frame(f) ==> ((old(self).rec is Some && old(
                self,
            ).flags.ready) ==> {
                &&& rel is None
                &&& final(self).flags == old(self).flags
                &&& ws_views(final(self).out@) == ws_views(old(self).out@) + sockjs_ws_units(f@)
                &&& final(self).rec matches Some(r1) && r1.sid == old(self).rec.unwrap().sid
                    && r1.buffer == old(self).rec.unwrap().buffer && r1.state
                    == sockjs_ws_state_after(f@, old(self).rec.unwrap().state)
            }),
            msg is Ready && old(self).rec is None ==> {
                &&& rel is None
                &&& final(self).rec is None
                &&& final(self).out == old(self).out
                &&& final(self).flags.release == old(self).flags.release
                &&& final(self).flags.ready == (old(self).flags.ready || !old(
                    self,
                ).flags.release)
            },
            msg is Ready && old(self).rec is Some ==> {
                &&& ws_views(final(self).out@) == ws_views(old(self).out@) + sockjs_ws_run(
                    entry_views(old(self).rec.unwrap().buffer@),
                )
                &&& final(self).flags.release == old(self).flags.release
                &&& (old(self).flags.release ==> {
                    &&& final(self).rec is None
                    &&& final(self).flags.ready == old(self).flags.ready
                    &&& rel matches Some(r1) && r1.sid == old(self).rec.unwrap().sid
                        && r1.buffer@ == Seq::<RecordEntry>::empty() && r1.state
                        == sockjs_ws_run_state(
                        entry_views(old(self).rec.unwrap().buffer@),
                        old(self).rec.unwrap().state,
                    )
                })
                &&& (!old(self).flags.release ==> {
                    &&& rel is None
                    &&& final(self).flags.ready
                    &&& final(self).rec matches Some(r1) && r1.sid == old(
                        self,
                    ).rec.unwrap().sid && r1.buffer@ == Seq::<RecordEntry>::empty() && r1.state
                        == sockjs_ws_run_state(
                        entry_views(old(self).rec.unwrap().buffer@),
                        old(self).rec.unwrap().state,
                    )
                })
            },
    {
        match msg {
            ChannelItem::Frame(f) => {
                match self.rec.take() {
                    Some(mut rec) => {
                        if self.flags.ready {
                            self.send(&f, &mut rec);
                            self.rec = Some(rec);
                        } else {
                            rec.add(RecordEntry::Frame(f));
                            self.rec = Some(rec);
                        }
                        None
                    },
                    None => None,
                }
            },
            ChannelItem::Ready => {
                match self.rec.take() {
                    Some(mut rec) => {
                        self.send_buffered(&mut rec);
                        self.rec = Some(rec);
                    },
                    None => {},
                }
                if self.flags.release {
                    self.rec.take()
                } else {
                    self.flags.ready = true;
                    None
                }
            },
        }
    }

    /// Finishes the acquire handshake with what the registry answered: a
    /// `New` record goes `Running` and gets its open frame (the one moment a
    /// session's open frame is written on this wire), then the buffer is
    /// replayed; a terminal record gets its pending close and goes straight
    /// back; a refused acquire gets the error's close with no record.
    pub fn init_transport(&mut self, res: Result<Record, SessionError>) -> (rel: Option<Record>)
        requires
            old(self).rec is None,
            !old(self).flags.release,
        ensures
            final(self).flags == old(self).flags,
            res matches Ok(rec) ==> (rec.state == SessionState::New ==> {
                &&& rel is None
                &&& ws_views(final(self).out@) == ws_views(old(self).out@) + sockjs_ws_units(
                    FrameView::Open,
                ) + sockjs_ws_run(entry_views(rec.buffer@))
                &&& final(self).rec matches Some(r1) && r1.sid == rec.sid && r1.buffer@
                    == Seq::<RecordEntry>::empty() && r1.state == sockjs_ws_run_state(
                    entry_views(rec.buffer@),
                    SessionState::Running,
                )
            }),
            res matches Ok(rec) ==> (rec.state == SessionState::Running ==> {
                &&& rel is None
                &&& ws_views(final(self).out@) == ws_views(old(self).out@) + sockjs_ws_run(
                    entry_views(rec.buffer@),
                )
                &&& final(self).rec matches Some(r1) && r1.sid == rec.sid && r1.buffer@
                    == Seq::<RecordEntry>::empty() && r1.state == sockjs_ws_run_state(
                    entry_views(rec.buffer@),
                    SessionState::Running,
                )
            }),
            res matches Ok(rec) ==> ((rec.state == SessionState::Interrupted || rec.state
                == SessionState::Closed) ==> {
                &&& final(self).rec is None
                &&& ws_views(final(self).out@) == ws_views(old(self).out@) + sockjs_ws_units(
                    FrameView::Close(
                        if rec.state == SessionState::Interrupted {
                            CloseCodeView::Interrupted
                        } else {
                            CloseCodeView::GoAway
                        },
                    ),
                )
                &&& rel matches Some(r1) && r1.sid == rec.sid && r1.buffer == rec.buffer
                    && r1.state == SessionState::Closed
            }),
            res matches Err(e) ==> {
                &&& rel is None
                &&& final(self).rec is None
                &&& ws_views(final(self).out@) == ws_views(old(self).out@) + sockjs_ws_units(
                    FrameView::Close(e.spec_close_code()@),
                )
            },
    {
        match res {
            Ok(mut rec) => {
                match rec.state {
                    SessionState::Running => {
                        self.send_buffered(&mut rec);
                        self.rec = Some(rec);
                        None
                    },
                    SessionState::New => {
                        rec.state = SessionState::Running;
                        self.send(&Frame::Open, &mut rec);
                        let ghost buf0 = rec.buffer@;
                        self.send_buffered(&mut rec);
                        self.rec = Some(rec);
                        proof {
                            assert(ws_views(self.out@) =~= ws_views(old(self).out@)
                                + sockjs_ws_units(FrameView::Open) + sockjs_ws_run(
                                entry_views(buf0),
                            ));
                        }
                        None
                    },
                    SessionState::Interrupted => {
                        self.send(&Frame::Close(CloseCode::Interrupted), &mut rec);
                        Some(rec)
                    },
                    SessionState::Closed => {
                        self.send(&Frame::Close(CloseCode::GoAway), &mut rec);
                        Some(rec)
                    },
                }
            },
            Err(e) => {
                self.send_close(e.close_code());
                None
            },
        }
    }

    /// The connection is going away: the record, if held, goes back, marked
    /// interrupted when the client vanished without a clean close.
    pub fn stopping(&mut self, connected: bool) -> (rel: Option<Record>)
        ensures
            final(self).rec is None,
            final(self).flags == old(self).flags,
            final(self).out == old(self).out,
            old(self).rec is None ==> rel is None,
            old(self).rec matches Some(r0) ==> (connected ==> rel == Some(r0)),
            old(self).rec matches Some(r0) ==> (!connected ==> (rel matches Some(r1) && r1.sid
                == r0.sid && r1.buffer == r0.buffer && r1.state == (
            if r0.state == SessionState::Running {
                SessionState::Interrupted
            } else {
                r0.state
            }))),
    {
        match self.rec.take() {
            Some(mut rec) => {
                if !connected {
                    rec.interrupted();
                }
                Some(rec)
            },
            None => None,
        }
    }

    /// A broadcast frame reaches the transport directly: it is written if
    /// the record is here, and dropped otherwise.
    pub fn handle_broadcast(&mut self, msg: &Frame)
        ensures
            old(self).rec is None ==> *final(self) == *old(self),
            old(self).rec is Some ==> {
                &&& final(self).flags == old(self).flags
                &&& ws_views(final(self).out@) == ws_views(old(self).out@) + sockjs_ws_units(
                    msg@,
                )
                &&& final(self).rec matches Some(r1) && r1.sid == old(self).rec.unwrap().sid
                    && r1.buffer == old(self).rec.unwrap().buffer && r1.state
                    == sockjs_ws_state_after(msg@, old(self).rec.unwrap().state)
            },
    {
        match self.rec.take() {
            Some(mut rec) => {
                self.send(msg, &mut rec);
                self.rec = Some(rec);
            },
            None => {},
        }
    }

    /// One inbound text frame: a JSON array of payloads becomes one session
    /// message per element for the record's sid, in order; an empty text
    /// frame is ignored; anything else is a protocol error the caller
    /// answers by dropping the connection.
    pub fn handle_text(&mut self, text: &str) -> (r: Result<Vec<SessionMessage>, ()>)
        ensures
            final(self).rec == old(self).rec,
            final(self).flags == old(self).flags,
            final(self).out == old(self).out,
            text@.len() == 0 ==> (r matches Ok(v) && v@.len() == 0),
            (text@.len() > 0 && (old(self).rec is None || json_msgs_none(text@))) ==> r is Err,
            forall|m: Seq<char>|
                (text@ == seq!['['] + crate::json::json_quoted(m) + seq![']'] && old(
                    self,
                ).rec is Some) ==> (r matches Ok(v) && v@.len() == 1 && v@[0].sid == old(
                    self,
                ).rec.unwrap().sid && v@[0].msg@ == m),
    {
        if text.is_empty() {
            return Ok(Vec::new());
        }
        let sid = match &self.rec {
            Some(rec) => rec.sid.clone(),
            None => {
                return Err(());
            },
        };
        match parse_send_body(text) {
            Err(()) => Err(()),
            Ok(msgs) => {
                let mut out: Vec<SessionMessage> = Vec::new();
                let ghost parsed = msgs.deep_view();
                let mut i: usize = 0;
                let n = msgs.len();
                let mut rest = msgs;
                while i < n
                    invariant
                        i <= n,
                        n == parsed.len(),
                        rest.deep_view() == parsed,
                        rest@.len() == n,
                        sid == old(self).rec.unwrap().sid,
                        out@.len() == i,
                        forall|j: int|
                            0 <= j < i ==> (#[trigger] out@[j].sid == old(
                                self,
                            ).rec.unwrap().sid && out@[j].msg@ == parsed[j]),
                    decreases n - i,
                {
                    let m = rest[i].clone();
                    proof {
                        assert(rest@[i as int].deep_view() == parsed[i as int]);
                    }
                    out.push(SessionMessage { sid: sid.clone(), msg: Message(m) });
                    i = i + 1;
                }
                Ok(out)
            },
        }
    }
}

/// Whether the payload parser refuses the text; kept beside the contract so
/// a caller can speak of the refusal without naming the parse result.
pub open spec fn json_msgs_none(s: Seq<char>) -> bool {
    crate::json::json_msgs(s) is None
}

} // verus!
