//! Raw websocket: bare text and binary frames with no SockJS framing. The
//! open frame is suppressed; a close becomes a websocket close carrying the
//! close frame's own code and reason.

use vstd::prelude::*;

use crate::manager::{Record, RecordEntry, SessionMessage};
use crate::protocol::{dec_of, CloseCode, CloseCodeView, Frame, FrameView, Message,
    SessionError, SessionState};
use crate::transports::{entry_views, lemma_entry_views_index, lemma_entry_views_len,
    ChannelItem, Flags, SendResult};

verus! {

/// The mathematical value of a [`WsUnit`].
pub enum WsUnitView {
    Text(Seq<char>),
    Binary(Seq<u8>),
    Ping,
    Pong(Seq<u8>),
    Close(u16, Seq<char>),
}

/// One unit written to the websocket wire.
#[derive(Debug)]
pub enum WsUnit {
    Text(String),
    Binary(Vec<u8>),
    Ping,
    Pong(Vec<u8>),
    Close(u16, String),
}

impl View for WsUnit {
    type V = WsUnitView;

    open spec fn view(&self) -> WsUnitView {
        match self {
            WsUnit::Text(s) => WsUnitView::Text(s@),
            WsUnit::Binary(b) => WsUnitView::Binary(b@),
            WsUnit::Ping => WsUnitView::Ping,
            WsUnit::Pong(b) => WsUnitView::Pong(b@),
            WsUnit::Close(c, s) => WsUnitView::Close(*c, s@),
        }
    }
}

/// The views of the units written so far, in order.
pub open spec fn ws_views(s: Seq<WsUnit>) -> Seq<WsUnitView>
    decreases s.len(),
{
    if s.len() == 0 {
        Seq::empty()
    } else {
        ws_views(s.drop_last()).push(s.last()@)
    }
}

/// `ws_views` distributes over push.
pub proof fn lemma_ws_views_push(s: Seq<WsUnit>, u: WsUnit)
    ensures
        ws_views(s.push(u)) == ws_views(s).push(u@),
{
    assert(s.push(u).drop_last() =~= s);
    assert(s.push(u).last() == u);
}

/// What one frame writes on this wire.
pub open spec fn ws_units(f: FrameView) -> Seq<WsUnitView> {
    match f {
        FrameView::Open => Seq::empty(),
        FrameView::Heartbeat => seq![WsUnitView::Ping],
        FrameView::Message(m) => seq![WsUnitView::Text(m)],
        FrameView::MessageVec(v) => seq![WsUnitView::Text(v)],
        FrameView::MessageBlob(b) => seq![WsUnitView::Binary(b)],
        FrameView::Close(c) => seq![WsUnitView::Close(c.spec_num(), c.spec_reason())],
    }
}

/// A close frame closes the record; anything else leaves it alone.
pub open spec fn ws_state_after(f: FrameView, st: SessionState) -> SessionState {
    if f is Close {
        SessionState::Closed
    } else {
        st
    }
}

/// What a sequence of frames writes on this wire, in order.
pub open spec fn ws_run(fs: Seq<FrameView>) -> Seq<WsUnitView>
    decreases fs.len(),
{
    if fs.len() == 0 {
        Seq::empty()
    } else {
        ws_run(fs.drop_last()) + ws_units(fs.last())
    }
}

/// The record state after a sequence of frames left on this wire.
pub open spec fn ws_run_state(fs: Seq<FrameView>, st: SessionState) -> SessionState
    decreases fs.len(),
{
    if fs.len() == 0 {
        st
    } else {
        ws_state_after(fs.last(), ws_run_state(fs.drop_last(), st))
    }
}

/// The text payloads among the wire units, in order.
pub open spec fn texts_of(us: Seq<WsUnitView>) -> Seq<Seq<char>>
    decreases us.len(),
{
    if us.len() == 0 {
        Seq::empty()
    } else {
        let rest = texts_of(us.drop_last());
        match us.last() {
            WsUnitView::Text(t) => rest.push(t),
            _ => rest,
        }
    }
}

/// The message payloads among a sequence of frames, in order.
pub open spec fn msg_payloads(fs: Seq<FrameView>) -> Seq<Seq<char>>
    decreases fs.len(),
{
    if fs.len() == 0 {
        Seq::empty()
    } else {
        let rest = msg_payloads(fs.drop_last());
        match fs.last() {
            FrameView::Message(m) => rest.push(m),
            FrameView::MessageVec(v) => rest.push(v),
            _ => rest,
        }
    }
}

/// The text payloads observed on the raw websocket wire are exactly the
/// message payloads of the frames written, in order: this wire neither
/// drops, reorders nor invents message content.
pub proof fn lemma_ws_wire_messages(fs: Seq<FrameView>)
    ensures
        texts_of(ws_run(fs)) == msg_payloads(fs),
    decreases fs.len(),
{
    if fs.len() > 0 {
        lemma_ws_wire_messages(fs.drop_last());
        let a = ws_run(fs.drop_last());
        let u = ws_units(fs.last());
        match fs.last() {
            FrameView::Open => {
                assert(a + u =~= a);
            },
            _ => {
                assert((a + u).drop_last() =~= a);
                assert(texts_of(a + u) =~= texts_of(ws_run(fs)));
            },
        }
    }
}

/// The raw websocket transport for one connection. `out` is what it wrote to
/// the socket, in order.
#[derive(Debug)]
pub struct RawWebsocket {
    pub rec: Option<Record>,
    pub flags: Flags,
    pub out: Vec<WsUnit>,
}

impl RawWebsocket {
    /// Starts a transport for a fresh connection. A raw websocket client
    /// brings no session id, so one is drawn at random: the returned sid is
    /// the decimal numeral of the drawn value, hence non-empty and never a
    /// client-chosen name of another wire's session.
    pub fn init() -> (r: (RawWebsocket, String))
        ensures
            r.0.rec is None,
            !r.0.flags.ready,
            !r.0.flags.release,
            r.0.out@.len() == 0,
            exists|n: u32| r.1@ == dec_of(n as int),
    {
        let n = random_u32();
        let sid = crate::protocol::u32_dec(n);
        proof {
            assert(sid@ == dec_of(n as int));
        }
        (RawWebsocket { rec: None, flags: Flags::empty(), out: Vec::new() }, sid)
    }

    /// Writes one frame: a ping for a heartbeat, a text frame for a message,
    /// a binary frame for a blob, nothing for the suppressed open, and a
    /// websocket close carrying the close frame's code and reason, which
    /// also closes the record. This wire never stops on size.
    pub fn send(&mut self, msg: &Frame, record: &mut Record) -> (r: SendResult)
        ensures
            r == SendResult::Continue,
            final(self).rec == old(self).rec,
            final(self).flags == old(self).flags,
            ws_views(final(self).out@) == ws_views(old(self).out@) + ws_units(msg@),
            final(record).sid == old(record).sid,
            final(record).buffer == old(record).buffer,
            final(record).state == ws_state_after(msg@, old(record).state),
    {
        let ghost out0 = self.out@;
        match msg {
            Frame::Heartbeat => {
                self.out.push(WsUnit::Ping);
                proof {
                    lemma_ws_views_push(out0, WsUnit::Ping);
                }
            },
            Frame::Message(s) => {
                let u = WsUnit::Text(s.clone());
                self.out.push(u);
                proof {
                    lemma_ws_views_push(out0, u);
                }
            },
            Frame::MessageVec(s) => {
                let u = WsUnit::Text(s.clone());
                self.out.push(u);
                proof {
                    lemma_ws_views_push(out0, u);
                }
            },
            Frame::MessageBlob(b) => {
                let u = WsUnit::Binary(crate::protocol::clone_bytes(b));
                self.out.push(u);
                proof {
                    lemma_ws_views_push(out0, u);
                }
            },
            Frame::Open => {
                proof {
                    assert(ws_views(self.out@) + ws_units(msg@) =~= ws_views(self.out@));
                }
            },
            Frame::Close(c) => {
                record.close();
                let u = WsUnit::Close(c.num(), c.reason().to_owned());
                self.out.push(u);
                proof {
                    lemma_ws_views_push(out0, u);
                }
            },
        };
        proof {
            if !(msg@ is Open) {
                assert(ws_views(self.out@) =~= ws_views(old(self).out@) + ws_units(msg@));
            }
        }
        SendResult::Continue
    }

    /// Writes the websocket close for a refused acquire, carrying the
    /// reported code and its reason.
    pub fn send_close(&mut self, code: CloseCode)
        ensures
            final(self).rec == old(self).rec,
            final(self).flags == old(self).flags,
            ws_views(final(self).out@) == ws_views(old(self).out@).push(
                WsUnitView::Close(code@.spec_num(), code@.spec_reason()),
            ),
    {
        let ghost out0 = self.out@;
        let u = WsUnit::Close(code.num(), code.reason().to_owned());
        self.out.push(u);
        proof {
            lemma_ws_views_push(out0, u);
        }
    }

    /// Replays every buffered frame in order; this wire never stops early.
    pub fn send_buffered(&mut self, record: &mut Record) -> (r: SendResult)
        ensures
            r == SendResult::Continue,
            final(self).rec == old(self).rec,
            final(self).flags == old(self).flags,
            ws_views(final(self).out@) == ws_views(old(self).out@) + ws_run(
                entry_views(old(record).buffer@),
            ),
            final(record).sid == old(record).sid,
            final(record).buffer@ == Seq::<RecordEntry>::empty(),
            final(record).state == ws_run_state(entry_views(old(record).buffer@), old(record).state),
    {
        let ghost all = entry_views(old(record).buffer@);
        let ghost n0 = old(record).buffer@.len() as int;
        proof {
            lemma_entry_views_len(old(record).buffer@);
        }
        let ghost k: int = 0;
        while record.buffer.len() > 0
            invariant
                0 <= k <= n0,
                n0 == old(record).buffer@.len(),
                all == entry_views(old(record).buffer@),
                all.len() == n0,
                record.buffer@ =~= old(record).buffer@.subrange(k, n0),
                self.rec == old(self).rec,
                self.flags == old(self).flags,
                ws_views(self.out@) =~= ws_views(old(self).out@) + ws_run(all.subrange(0, k)),
                record.sid == old(record).sid,
                record.state == ws_run_state(all.subrange(0, k), old(record).state),
            decreases record.buffer@.len(),
        {
            proof {
                lemma_entry_views_index(old(record).buffer@, k);
                assert(record.buffer@[0] == old(record).buffer@[k]);
            }
            let entry = record.buffer.remove(0);
            let res = self.send(entry.as_ref(), record);
            proof {
                k = k + 1;
                let p0 = all.subrange(0, k - 1);
                let p1 = all.subrange(0, k);
                assert(p1.drop_last() =~= p0);
                assert(p1.last() == all[k - 1]);
                assert(record.buffer@ =~= old(record).buffer@.subrange(k, n0));
                assert(ws_views(self.out@) =~= ws_views(old(self).out@) + ws_run(p1));
            }
        }
        proof {
            assert(k == n0);
            assert(all.subrange(0, n0) =~= all);
            assert(record.buffer@ =~= Seq::<RecordEntry>::empty());
        }
        SendResult::Continue
    }

    /// Runs the shared transport state machine for one channel item. This
    /// wire never stops on size, so a live frame keeps the connection; the
    /// returned record, if any, goes back to the registry at once.
    pub fn handle_message(&mut self, msg: ChannelItem) -> (rel: Option<Record>)
        ensures
            msg is Frame && old(self).rec is None ==> *final(self) == *old(self) && rel is None,
            msg matches ChannelItem::Frame(f) ==> ((old(self).rec is Some && !old(
                self,
            ).flags.ready) ==> {
                &&& rel is None
                &&& final(self).flags == old(self).flags
                &&& final(self).out == old(self).out
                &&& final(self).rec matches Some(r1) && r1.sid == old(self).rec.unwrap().sid
                    && r1.state == old(self).rec.unwrap().state && r1.buffer@ == old(
                    self,
                ).rec.unwrap().buffer@.push(RecordEntry::Frame(f))
            }),
            msg matches ChannelItem::Frame(f) ==> ((old(self).rec is Some && old(
                self,
            ).flags.ready) ==> {
                &&& rel is None
                &&& final(self).flags == old(self).flags
                &&& ws_views(final(self).out@) == ws_views(old(self).out@) + ws_units(f@)
                &&& final(self).rec matches Some(r1) && r1.sid == old(self).rec.unwrap().sid
                    && r1.buffer == old(self).rec.unwrap().buffer && r1.state == ws_state_after(
                    f@,
                    old(self).rec.unwrap().state,
                )
            }),
            msg is Ready && old(self).rec is None ==> {
                &&& rel is None
                &&& final(self).rec is None
                &&& final(self).out == old(self).out
                &&& final(self).flags.release == old(self).flags.release
                &&& final(self).flags.ready == (old(self).flags.ready || !old(
                    self,
                ).flags.release)
            },
            msg is Ready && old(self).rec is Some ==> {
                &&& ws_views(final(self).out@) == ws_views(old(self).out@) + ws_run(
                    entry_views(old(self).rec.unwrap().buffer@),
                )
                &&& final(self).flags.release == old(self).flags.release
                &&& (old(self).flags.release ==> {
                    &&& final(self).rec is None
                    &&& final(self).flags.ready == old(self).flags.ready
                    &&& rel matches Some(r1) && r1.sid == old(self).rec.unwrap().sid
                        && r1.buffer@ == Seq::<RecordEntry>::empty() && r1.state == ws_run_state(
                        entry_views(old(self).rec.unwrap().buffer@),
                        old(self).rec.unwrap().state,
                    )
                })
                &&& (!old(self).flags.release ==> {
                    &&& rel is None
                    &&& final(self).flags.ready
                    &&& final(self).rec matches Some(r1) && r1.sid == old(
                        self,
                    ).rec.unwrap().sid && r1.buffer@ == Seq::<RecordEntry>::empty() && r1.state
                        == ws_run_state(
                        entry_views(old(self).rec.unwrap().buffer@),
                        old(self).rec.unwrap().state,
                    )
                })
            },
    {
        match msg {
            ChannelItem::Frame(f) => {
                match self.rec.take() {
                    Some(mut rec) => {
                        if self.flags.ready {
                            self.send(&f, &mut rec);
                            self.rec = Some(rec);
                        } else {
                            rec.add(RecordEntry::Frame(f));
                            self.rec = Some(rec);
                        }
                        None
                    },
                    None => None,
                }
            },
            ChannelItem::Ready => {
                match self.rec.take() {
                    Some(mut rec) => {
                        self.send_buffered(&mut rec);
                        self.rec = Some(rec);
                    },
                    None => {},
                }
                if self.flags.release {
                    self.rec.take()
                } else {
                    self.flags.ready = true;
                    None
                }
            },
        }
    }

    /// Finishes the acquire handshake with what the registry answered: a
    /// `New` record goes `Running` (the open frame is suppressed on this
    /// wire) and replays its buffer, a `Running` record replays its buffer,
    /// a terminal record gets the websocket close and goes straight back,
    /// and a refused acquire gets the websocket close with no record.
    pub fn init_transport(&mut self, res: Result<Record, SessionError>) -> (rel: Option<Record>)
        requires
            old(self).rec is None,
            !old(self).flags.release,
        ensures
            final(self).flags == old(self).flags,
            res matches Ok(rec) ==> ((rec.state == SessionState::New || rec.state
                == SessionState::Running) ==> {
                &&& rel is None
                &&& ws_views(final(self).out@) == ws_views(old(self).out@) + ws_run(
                    entry_views(rec.buffer@),
                )
                &&& final(self).rec matches Some(r1) && r1.sid == rec.sid && r1.buffer@
                    == Seq::<RecordEntry>::empty() && r1.state == ws_run_state(
                    entry_views(rec.buffer@),
                    SessionState::Running,
                )
            }),
            res matches Ok(rec) ==> ((rec.state == SessionState::Interrupted || rec.state
                == SessionState::Closed) ==> {
                &&& final(self).rec is None
                &&& ws_views(final(self).out@) == ws_views(old(self).out@) + ws_units(
                    FrameView::Close(
                        if rec.state == SessionState::Interrupted {
                            CloseCodeView::Interrupted
                        } else {
                            CloseCodeView::GoAway
                        },
                    ),
                )
                &&& rel matches Some(r1) && r1.sid == rec.sid && r1.buffer == rec.buffer
                    && r1.state == SessionState::Closed
            }),
            res matches Err(e) ==> {
                &&& rel is None
                &&& final(self).rec is None
                &&& ws_views(final(self).out@) == ws_views(old(self).out@).push(
                    WsUnitView::Close(e.spec_close_code()@.spec_num(), e.spec_close_code()@.spec_reason()),
                )
            },
    {
        match res {
            Ok(mut rec) => {
                match rec.state {
                    SessionState::Running => {
                        self.send_buffered(&mut rec);
                        self.rec = Some(rec);
                        None
                    },
                    SessionState::New => {
                        rec.state = SessionState::Running;
                        self.send(&Frame::Open, &mut rec);
                        self.send_buffered(&mut rec);
                        self.rec = Some(rec);
                        proof {
                            assert(ws_views(old(self).out@) + Seq::<WsUnitView>::empty() + ws_run(
                                entry_views(rec.buffer@),
                            ) =~= ws_views(old(self).out@) + ws_run(entry_views(rec.buffer@)));
                        }
                        None
                    },
                    SessionState::Interrupted => {
                        self.send(&Frame::Close(CloseCode::Interrupted), &mut rec);
                        Some(rec)
                    },
                    SessionState::Closed => {
                        self.send(&Frame::Close(CloseCode::GoAway), &mut rec);
                        Some(rec)
                    },
                }
            },
            Err(e) => {
                self.send_close(e.close_code());
                None
            },
        }
    }

    /// The connection is going away: the record, if held, is marked closed
    /// and goes back to the registry.
    pub fn stopping(&mut self) -> (rel: Option<Record>)
        ensures
            final(self).rec is None,
            final(self).flags == old(self).flags,
            final(self).out == old(self).out,
            old(self).rec is None ==> rel is None,
            old(self).rec matches Some(r0) ==> (rel matches Some(r1) && r1.sid == r0.sid
                && r1.buffer == r0.buffer && r1.state == SessionState::Closed),
    {
        match self.rec.take() {
            Some(mut rec) => {
                rec.close();
                Some(rec)
            },
            None => None,
        }
    }

    /// A websocket protocol error: the record, if held, goes back as it is.
    pub fn error(&mut self) -> (rel: Option<Record>)
        ensures
            final(self).rec is None,
            final(self).flags == old(self).flags,
            final(self).out == old(self).out,
            rel == old(self).rec,
    {
        self.rec.take()
    }


    /// Where the transport parks its record between events.
    pub fn session_record(&mut self) -> (r: &mut Option<Record>)
        ensures
            *r == old(self).rec,
            final(self).rec == *final(r),
            final(self).flags == old(self).flags,
            final(self).out == old(self).out,
    {
        &mut self.rec
    }

    /// The transport's state bits.
    pub fn flags(&mut self) -> (r: &mut Flags)
        ensures
            *r == old(self).flags,
            final(self).flags == *final(r),
            final(self).rec == old(self).rec,
            final(self).out == old(self).out,
    {
        &mut self.flags
    }

    /// Stops the transport and hands the record back, marked interrupted
    /// when the connection is no longer up.
    pub fn release(&mut self, connected: bool) -> (rel: Option<Record>)
        ensures
            final(self).rec is None,
            final(self).flags == old(self).flags,
            final(self).out == old(self).out,
            old(self).rec is None ==> rel is None,
            old(self).rec matches Some(r0) ==> (connected ==> rel == Some(r0)),
            old(self).rec matches Some(r0) ==> (!connected ==> (rel matches Some(r1) && r1.sid
                == r0.sid && r1.buffer == r0.buffer && r1.state == (
            if r0.state == SessionState::Running {
                SessionState::Interrupted
            } else {
                r0.state
            }))),
    {
        match self.rec.take() {
            Some(mut rec) => {
                if !connected {
                    rec.interrupted();
                }
                Some(rec)
            },
            None => None,
        }
    }

    /// A broadcast frame reaches the transport directly: it is written if
    /// the record is here, and dropped otherwise.
    pub fn handle_broadcast(&mut self, msg: &Frame)
        ensures
            old(self).rec is None ==> *final(self) == *old(self),
            old(self).rec is Some ==> {
                &&& final(self).flags == old(self).flags
                &&& ws_views(final(self).out@) == ws_views(old(self).out@) + ws_units(msg@)
                &&& final(self).rec matches Some(r1) && r1.sid == old(self).rec.unwrap().sid
                    && r1.buffer == old(self).rec.unwrap().buffer && r1.state == ws_state_after(
                    msg@,
                    old(self).rec.unwrap().state,
                )
            },
    {
        match self.rec.take() {
            Some(mut rec) => {
                self.send(msg, &mut rec);
                self.rec = Some(rec);
            },
            None => {},
        }
    }

    /// One inbound websocket message: a ping is answered with a pong, a
    /// non-empty text frame while attached becomes a session message for the
    /// record's sid, an empty text frame is ignored, and a binary frame is
    /// not supported on the inbound side and is dropped.
    pub fn handle(&mut self, msg: WsMessage) -> (r: Option<SessionMessage>)
        ensures
            final(self).rec == old(self).rec,
            final(self).flags == old(self).flags,
            msg matches WsMessage::Ping(p) ==> (r is None && ws_views(final(self).out@)
                == ws_views(old(self).out@).push(WsUnitView::Pong(p@))),
            msg matches WsMessage::Text(t) ==> ((t@.len() > 0 && old(self).rec is Some) ==> {
                &&& final(self).out == old(self).out
                &&& r matches Some(sm) && sm.sid == old(self).rec.unwrap().sid && sm.msg@ == t@
            }),
            msg matches WsMessage::Text(t) ==> ((t@.len() == 0 || old(self).rec is None)
                ==> *final(self) == *old(self) && r is None),
            msg is Binary || msg is Other ==> *final(self) == *old(self) && r is None,
    {
        match msg {
            WsMessage::Ping(p) => {
                let ghost out0 = self.out@;
                let u = WsUnit::Pong(p);
                self.out.push(u);
                proof {
                    lemma_ws_views_push(out0, u);
                }
                None
            },
            WsMessage::Text(t) => {
                if !t.as_str().is_empty() {
                    match &self.rec {
                        Some(rec) => Some(
                            SessionMessage { sid: rec.sid.clone(), msg: Message(t) },
                        ),
                        None => None,
                    }
                } else {
                    None
                }
            },
            WsMessage::Binary(_) => None,
            WsMessage::Other => None,
        }
    }
}

/// One inbound message from the websocket.
#[derive(Debug)]
pub enum WsMessage {
    Ping(Vec<u8>),
    Text(String),
    Binary(Vec<u8>),
    Other,
}

/// Relies on rand::random::<u32>: a draw from the thread-local generator;
/// nothing is promised of the value.
#[verifier::external_body]
fn random_u32() -> u32 {
    rand::random::<u32>()
}

} // verus!
