//! JSONP: a one-shot GET transport. Each response carries exactly one frame
//! as `<callback>("<frame>");\r\n` and then ends; the send companion
//! endpoint delivers inbound messages.

use vstd::prelude::*;
use vstd::string::StringExecFns;

use crate::json::{json_encode_str, json_quoted};
use crate::manager::{Record, RecordEntry};
use crate::protocol::{CloseCode, CloseCodeView, Frame, FrameView, SessionError,
    SessionState};
use crate::transports::htmlfile::{check_callback, valid_callback};
use crate::transports::{frame_body, frame_body_str, state_after_frame, ChannelItem, Flags,
    HttpMethod, SendResult};

verus! {

/// The response one frame becomes on this wire: the callback applied to the
/// JSON-quoted frame text.
pub open spec fn jsonp_unit(cb: Seq<char>, f: FrameView) -> Seq<char> {
    cb + "("@ + json_quoted(frame_body(f)) + ");\r\n"@
}

/// The JSONP transport for one poll request. `out` is what it wrote to the
/// response, in order; `eof` means the response ended.
#[derive(Debug)]
pub struct Jsonp {
    pub callback: String,
    pub rec: Option<Record>,
    pub flags: Flags,
    pub out: Vec<String>,
    pub eof: bool,
}

/// What a JSONP poll request gets before any session work.
#[derive(Debug)]
pub enum JsonpInit {
    /// Any method besides `GET`: answer `404 Not Found`.
    NotFound,
    /// No `c` query parameter: answer `500` with
    /// `"callback" parameter required`.
    CallbackRequired,
    /// A malformed `c` parameter: answer `500` with
    /// `invalid "callback" parameter`.
    InvalidCallback,
    /// A valid callback: run this fresh transport.
    Transport(Jsonp),
}

/// The `200` body the send companion answers on success.
pub fn jsonp_send_ok_body() -> (r: &'static str)
    ensures
        r@ == "ok"@,
{
    "ok"
}

impl Jsonp {
    /// Dispatches on the request method and the `c` query parameter, as the
    /// endpoint does; the callback obeys the same rule as HTMLFile's.
    pub fn init(method: HttpMethod, callback: Option<String>) -> (r: JsonpInit)
        ensures
            method != HttpMethod::Get ==> r is NotFound,
            method == HttpMethod::Get && callback is None ==> r is CallbackRequired,
            callback matches Some(cb) ==> ((method == HttpMethod::Get && !valid_callback(cb@))
                ==> r is InvalidCallback),
            callback matches Some(cb) ==> ((method == HttpMethod::Get && valid_callback(cb@))
                ==> (r matches JsonpInit::Transport(t) && t.callback == cb && t.rec is None
                && !t.flags.ready && !t.flags.release && t.out@.len() == 0 && !t.eof)),
    {
        if !matches!(method, HttpMethod::Get) {
            return JsonpInit::NotFound;
        }
        match callback {
            None => JsonpInit::CallbackRequired,
            Some(cb) => {
                if !check_callback(cb.as_str()) {
                    JsonpInit::InvalidCallback
                } else {
                    JsonpInit::Transport(
                        Jsonp {
                            callback: cb,
                            rec: None,
                            flags: Flags::empty(),
                            out: Vec::new(),
                            eof: false,
                        },
                    )
                }
            },
        }
    }

    /// Writes one frame as one callback application and ends the one-shot
    /// response. A close frame (or a binary payload, rejected as an
    /// internal-error close) also closes the record.
    pub fn send(&mut self, msg: &Frame, record: &mut Record) -> (r: SendResult)
        ensures
            r == SendResult::Stop,
            final(self).eof,
            final(self).rec == old(self).rec,
            final(self).flags == old(self).flags,
            final(self).callback == old(self).callback,
            final(self).out@.len() == old(self).out@.len() + 1,
            forall|k: int|
                0 <= k < old(self).out@.len() ==> final(self).out@[k] == old(self).out@[k],
            final(self).out@.last()@ == jsonp_unit(old(self).callback@, msg@),
            final(record).sid == old(record).sid,
            final(record).buffer == old(record).buffer,
            final(record).state == state_after_frame(msg@, old(record).state),
    {
        match msg {
            Frame::Close(_) => record.close(),
            Frame::MessageBlob(_) => record.close(),
            _ => {},
        }
        let body = frame_body_str(msg);
        let q = json_encode_str(body.as_str());
        let mut chunk = self.callback.clone();
        chunk.append("(");
        chunk.append(q.as_str());
        chunk.append(");\r\n");
        self.out.push(chunk);
        self.eof = true;
        SendResult::Stop
    }

    /// Writes one heartbeat response and ends it.
    pub fn send_heartbeat(&mut self)
        ensures
            final(self).eof,
            final(self).rec == old(self).rec,
            final(self).flags == old(self).flags,
            final(self).callback == old(self).callback,
            final(self).out@.len() == old(self).out@.len() + 1,
            forall|k: int|
                0 <= k < old(self).out@.len() ==> final(self).out@[k] == old(self).out@[k],
            final(self).out@.last()@ == jsonp_unit(old(self).callback@, FrameView::Heartbeat),
    {
        let q = json_encode_str("h");
        let mut chunk = self.callback.clone();
        chunk.append("(");
        chunk.append(q.as_str());
        chunk.append(");\r\n");
        self.out.push(chunk);
        self.eof = true;
    }

    /// Writes one close response without a record (used when acquire fails)
    /// and ends it.
    pub fn send_close(&mut self, code: CloseCode)
        ensures
            final(self).eof,
            final(self).rec == old(self).rec,
            final(self).flags == old(self).flags,
            final(self).callback == old(self).callback,
            final(self).out@.len() == old(self).out@.len() + 1,
            forall|k: int|
                0 <= k < old(self).out@.len() ==> final(self).out@[k] == old(self).out@[k],
            final(self).out@.last()@ == jsonp_unit(
                old(self).callback@,
                FrameView::Close(code@),
            ),
    {
        let body = code.close_body();
        let q = json_encode_str(body.as_str());
        let mut chunk = self.callback.clone();
        chunk.append("(");
        chunk.append(q.as_str());
        chunk.append(");\r\n");
        self.out.push(chunk);
        self.eof = true;
    }

    /// Replays buffered frames. One frame fills this one-shot response, so a
    /// non-empty buffer emits exactly its first frame and stops.
    pub fn send_buffered(&mut self, record: &mut Record) -> (r: SendResult)
        ensures
            old(record).buffer@.len() == 0 ==> r == SendResult::Continue && *final(self) == *old(
                self,
            ) && *final(record) == *old(record),
            old(record).buffer@.len() > 0 ==> {
                &&& r == SendResult::Stop
                &&& final(self).eof
                &&& final(self).rec == old(self).rec
                &&& final(self).flags == old(self).flags
                &&& final(self).callback == old(self).callback
                &&& final(self).out@.len() == old(self).out@.len() + 1
                &&& (forall|k: int|
                    0 <= k < old(self).out@.len() ==> final(self).out@[k] == old(self).out@[k])
                &&& final(self).out@.last()@ == jsonp_unit(
                    old(self).callback@,
                    old(record).buffer@[0]@,
                )
                &&& final(record).sid == old(record).sid
                &&& final(record).buffer@ == old(record).buffer@.drop_first()
                &&& final(record).state == state_after_frame(
                    old(record).buffer@[0]@,
                    old(record).state,
                )
            },
    {
        while record.buffer.len() > 0
            invariant
                *self == *old(self),
                *record == *old(record),
            decreases record.buffer@.len(),
        {
            let entry = record.buffer.remove(0);
            let res = self.send(entry.as_ref(), record);
            if matches!(res, SendResult::Stop) {
                return SendResult::Stop;
            }
        }
        SendResult::Continue
    }

    /// Runs the shared transport state machine for one channel item, exactly
    /// as the XHR poll does: a live frame is buffered before readiness and
    /// written (ending the poll) after it; `Ready` replays the buffer and
    /// then either releases or goes ready.
    pub fn handle_message(&mut self, msg: ChannelItem) -> (rel: Option<Record>)
        ensures
            msg is Frame && old(self).rec is None ==> *final(self) == *old(self) && rel is None,
            msg matches ChannelItem::Frame(f) ==> ((old(self).rec is Some && !old(
                self,
            ).flags.ready) ==> {
                &&& rel is None
                &&& final(self).flags == old(self).flags
                &&& final(self).out == old(self).out
                &&& final(self).eof == old(self).eof
                &&& final(self).rec matches Some(r1) && r1.sid == old(self).rec.unwrap().sid
                    && r1.state == old(self).rec.unwrap().state && r1.buffer@ == old(
                    self,
                ).rec.unwrap().buffer@.push(RecordEntry::Frame(f))
            }),
            msg matches ChannelItem::Frame(f) ==> ((old(self).rec is Some && old(
                self,
            ).flags.ready) ==> {
                &&& final(self).rec is None
                &&& final(self).eof
                &&& final(self).flags == old(self).flags
                &&& final(self).out@.len() == old(self).out@.len() + 1
                &&& (forall|k: int|
                    0 <= k < old(self).out@.len() ==> final(self).out@[k] == old(self).out@[k])
                &&& final(self).out@.last()@ == jsonp_unit(old(self).callback@, f@)
                &&& (rel matches Some(r1) && r1.sid == old(self).rec.unwrap().sid && r1.buffer
                    == old(self).rec.unwrap().buffer && r1.state == state_after_frame(
                    f@,
                    old(self).rec.unwrap().state,
                ))
            }),
            msg is Ready && old(self).rec is None ==> {
                &&& rel is None
                &&& final(self).rec is None
                &&& final(self).out == old(self).out
                &&& final(self).eof == old(self).eof
                &&& final(self).flags.release == old(self).flags.release
                &&& final(self).flags.ready == (old(self).flags.ready || !old(
                    self,
                ).flags.release)
            },
            (msg is Ready && old(self).rec is Some && old(self).rec.unwrap().buffer@.len()
                == 0) ==> {
                &&& final(self).out == old(self).out
                &&& final(self).eof == old(self).eof
                &&& final(self).flags.release == old(self).flags.release
                &&& (old(self).flags.release ==> rel == old(self).rec && final(self).rec is None
                    && final(self).flags.ready == old(self).flags.ready)
                &&& (!old(self).flags.release ==> rel is None && final(self).rec == old(self).rec
                    && final(self).flags.ready)
            },
            (msg is Ready && old(self).rec is Some && old(self).rec.unwrap().buffer@.len()
                > 0) ==> {
                &&& final(self).eof
                &&& final(self).rec is None
                &&& final(self).out@.len() == old(self).out@.len() + 1
                &&& (forall|k: int|
                    0 <= k < old(self).out@.len() ==> final(self).out@[k] == old(self).out@[k])
                &&& final(self).out@.last()@ == jsonp_unit(
                    old(self).callback@,
                    old(self).rec.unwrap().buffer@[0]@,
                )
                &&& (rel matches Some(r1) && r1.sid == old(self).rec.unwrap().sid && r1.buffer@
                    == old(self).rec.unwrap().buffer@.drop_first() && r1.state
                    == state_after_frame(
                    old(self).rec.unwrap().buffer@[0]@,
                    old(self).rec.unwrap().state,
                ))
                &&& final(self).flags.release == old(self).flags.release
                &&& final(self).flags.ready == (old(self).flags.ready || !old(
                    self,
                ).flags.release)
            },
    {
        match msg {
            ChannelItem::Frame(f) => {
                match self.rec.take() {
                    Some(mut rec) => {
                        if self.flags.ready {
                            let res = self.send(&f, &mut rec);
                            if matches!(res, SendResult::Stop) {
                                Some(rec)
                            } else {
                                self.rec = Some(rec);
                                None
                            }
                        } else {
                            rec.add(RecordEntry::Frame(f));
                            self.rec = Some(rec);
                            None
                        }
                    },
                    None => None,
                }
            },
            ChannelItem::Ready => {
                let mut rel: Option<Record> = None;
                match self.rec.take() {
                    Some(mut rec) => {
                        let res = self.send_buffered(&mut rec);
                        if matches!(res, SendResult::Stop) {
                            rel = Some(rec);
                        } else {
                            self.rec = Some(rec);
                        }
                    },
                    None => {},
                }
                if self.flags.release {
                    if rel.is_none() {
                        rel = self.rec.take();
                    }
                } else {
                    self.flags.ready = true;
                }
                rel
            },
        }
    }

    /// Finishes the acquire handshake with what the registry answered; see
    /// [`Xhr::init_transport`](crate::transports::xhr::Xhr::init_transport):
    /// this wire is one-shot the same way.
    pub fn init_transport(&mut self, res: Result<Record, SessionError>) -> (rel: Option<Record>)
        requires
            old(self).rec is None,
            !old(self).flags.release,
        ensures
            final(self).flags.ready == old(self).flags.ready,
            final(self).callback == old(self).callback,
            res matches Ok(rec) ==> (rec.state == SessionState::New ==> {
                &&& rel is None
                &&& final(self).eof
                &&& final(self).out@.len() == old(self).out@.len() + 1
                &&& (forall|k: int|
                    0 <= k < old(self).out@.len() ==> final(self).out@[k] == old(self).out@[k])
                &&& final(self).out@.last()@ == jsonp_unit(old(self).callback@, FrameView::Open)
                &&& final(self).flags.release
                &&& (final(self).rec matches Some(r1) && r1.sid == rec.sid && r1.state
                    == SessionState::Running && r1.buffer == rec.buffer)
            }),
            res matches Ok(rec) ==> ((rec.state == SessionState::Running && rec.buffer@.len()
                == 0) ==> {
                &&& rel is None
                &&& final(self).out == old(self).out
                &&& final(self).eof == old(self).eof
                &&& !final(self).flags.release
                &&& final(self).rec == Some(rec)
            }),
            res matches Ok(rec) ==> ((rec.state == SessionState::Running && rec.buffer@.len()
                > 0) ==> {
                &&& rel is None
                &&& final(self).eof
                &&& final(self).out@.len() == old(self).out@.len() + 1
                &&& (forall|k: int|
                    0 <= k < old(self).out@.len() ==> final(self).out@[k] == old(self).out@[k])
                &&& final(self).out@.last()@ == jsonp_unit(old(self).callback@, rec.buffer@[0]@)
                &&& final(self).flags.release
                &&& (final(self).rec matches Some(r1) && r1.sid == rec.sid && r1.buffer@
                    == rec.buffer@.drop_first() && r1.state == state_after_frame(
                    rec.buffer@[0]@,
                    rec.state,
                ))
            }),
            res matches Ok(rec) ==> ((rec.state == SessionState::Interrupted || rec.state
                == SessionState::Closed) ==> {
                &&& final(self).rec is None
                &&& final(self).eof
                &&& !final(self).flags.release
                &&& final(self).out@.len() == old(self).out@.len() + 1
                &&& (forall|k: int|
                    0 <= k < old(self).out@.len() ==> final(self).out@[k] == old(self).out@[k])
                &&& final(self).out@.last()@ == jsonp_unit(
                    old(self).callback@,
                    FrameView::Close(
                        if rec.state == SessionState::Interrupted {
                            CloseCodeView::Interrupted
                        } else {
                            CloseCodeView::GoAway
                        },
                    ),
                )
                &&& (rel matches Some(r1) && r1.sid == rec.sid && r1.buffer == rec.buffer
                    && r1.state == SessionState::Closed)
            }),
            res matches Err(e) ==> {
                &&& rel is None
                &&& final(self).rec is None
                &&& final(self).eof
                &&& !final(self).flags.release
                &&& final(self).out@.len() == old(self).out@.len() + 1
                &&& (forall|k: int|
                    0 <= k < old(self).out@.len() ==> final(self).out@[k] == old(self).out@[k])
                &&& final(self).out@.last()@ == jsonp_unit(
                    old(self).callback@,
                    FrameView::Close(e.spec_close_code()@),
                )
            },
    {
        match res {
            Ok(mut rec) => {
                match rec.state {
                    SessionState::Running => {
                        let r = self.send_buffered(&mut rec);
                        if matches!(r, SendResult::Stop) {
                            self.flags.release = true;
                        }
                        self.rec = Some(rec);
                        None
                    },
                    SessionState::New => {
                        rec.state = SessionState::Running;
                        let r = self.send(&Frame::Open, &mut rec);
                        if matches!(r, SendResult::Stop) {
                            self.flags.release = true;
                        } else {
                            let r2 = self.send_buffered(&mut rec);
                            if matches!(r2, SendResult::Stop) {
                                self.flags.release = true;
                            }
                        }
                        self.rec = Some(rec);
                        None
                    },
                    SessionState::Interrupted => {
                        self.send(&Frame::Close(CloseCode::Interrupted), &mut rec);
                        Some(rec)
                    },
                    SessionState::Closed => {
                        self.send(&Frame::Close(CloseCode::GoAway), &mut rec);
                        Some(rec)
                    },
                }
            },
            Err(e) => {
                self.send_close(e.close_code());
                None
            },
        }
    }

    /// The transport is going away: the record, if held, goes back to the
    /// registry, marked interrupted when the client vanished without a clean
    /// close.
    pub fn stopping(&mut self, connected: bool) -> (rel: Option<Record>)
        ensures
            final(self).rec is None,
            final(self).flags == old(self).flags,
            final(self).out == old(self).out,
            final(self).eof == old(self).eof,
            final(self).callback == old(self).callback,
            old(self).rec is None ==> rel is None,
            old(self).rec matches Some(r0) ==> (connected ==> rel == Some(r0)),
            old(self).rec matches Some(r0) ==> (!connected ==> (rel matches Some(r1) && r1.sid
                == r0.sid && r1.buffer == r0.buffer && r1.state == (
            if r0.state == SessionState::Running {
                SessionState::Interrupted
            } else {
                r0.state
            }))),
    {
        match self.rec.take() {
            Some(mut rec) => {
                if !connected {
                    rec.interrupted();
                }
                Some(rec)
            },
            None => None,
        }
    }

    /// A broadcast frame reaches the transport directly: it is written if
    /// the record is here, and dropped otherwise.
    pub fn handle_broadcast(&mut self, msg: &Frame)
        ensures
            old(self).rec is None ==> *final(self) == *old(self),
            old(self).rec is Some ==> {
                &&& final(self).eof
                &&& final(self).flags == old(self).flags
                &&& final(self).out@.len() == old(self).out@.len() + 1
                &&& (forall|k: int|
                    0 <= k < old(self).out@.len() ==> final(self).out@[k] == old(self).out@[k])
                &&& final(self).out@.last()@ == jsonp_unit(old(self).callback@, msg@)
                &&& (final(self).rec matches Some(r1) && r1.sid == old(self).rec.unwrap().sid
                    && r1.buffer == old(self).rec.unwrap().buffer && r1.state
                    == state_after_frame(msg@, old(self).rec.unwrap().state))
            },
    {
        match self.rec.take() {
            Some(mut rec) => {
                self.send(msg, &mut rec);
                self.rec = Some(rec);
            },
            None => {},
        }
    }
}

} // verus!
