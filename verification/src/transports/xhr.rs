//! XHR polling: a one-shot POST transport. Each response carries exactly one
//! frame line (`o\n`, `h\n`, `a[...]\n`, `c[n,"r"]\n`) and then ends.

use vstd::prelude::*;
use vstd::string::StringExecFns;

use crate::json::{json_msgs, json_parse_msgs, json_quoted};
use crate::manager::{Record, RecordEntry};
use crate::protocol::{CloseCode, CloseCodeView, Frame, FrameView, SessionError,
    SessionState};
use crate::transports::{frame_body, frame_body_str, state_after_frame, str_eq, ChannelItem,
    Flags, HttpMethod, SendResult};

verus! {

/// The XHR polling transport for one poll request. `out` is what it wrote to
/// the response, in order; `eof` means the response ended.
#[derive(Debug)]
pub struct Xhr {
    pub rec: Option<Record>,
    pub flags: Flags,
    pub out: Vec<String>,
    pub eof: bool,
}

/// What an XHR poll request gets before any session work.
#[derive(Debug)]
pub enum XhrInit {
    /// A preflight `OPTIONS`: answer `204 No Content` with the CORS headers.
    Options,
    /// Any method besides `POST`: answer `404 Not Found`.
    NotFound,
    /// A `POST`: run this fresh transport against the session registry.
    Transport(Xhr),
}

impl Xhr {
    /// Dispatches on the request method, as the poll endpoint does.
    pub fn init(method: HttpMethod) -> (r: XhrInit)
        ensures
            method == HttpMethod::Options ==> r is Options,
            method == HttpMethod::Post ==> (r matches XhrInit::Transport(t) && t.rec is None
                && !t.flags.ready && !t.flags.release && t.out@.len() == 0 && !t.eof),
            method != HttpMethod::Options && method != HttpMethod::Post ==> r is NotFound,
    {
        match method {
            HttpMethod::Options => XhrInit::Options,
            HttpMethod::Post => XhrInit::Transport(Xhr {
                rec: None,
                flags: Flags::empty(),
                out: Vec::new(),
                eof: false,
            }),
            _ => XhrInit::NotFound,
        }
    }

    /// Writes one frame as a single line and ends the one-shot response. A
    /// close frame (or a binary payload, which this wire rejects as an
    /// internal-error close) also closes the record.
    pub fn send(&mut self, msg: &Frame, record: &mut Record) -> (r: SendResult)
        ensures
            r == SendResult::Stop,
            final(self).eof,
            final(self).rec == old(self).rec,
            final(self).flags == old(self).flags,
            final(self).out@.len() == old(self).out@.len() + 1,
            forall|k: int|
                0 <= k < old(self).out@.len() ==> final(self).out@[k] == old(self).out@[k],
            final(self).out@.last()@ == frame_body(msg@) + "\n"@,
            final(record).sid == old(record).sid,
            final(record).buffer == old(record).buffer,
            final(record).state == state_after_frame(msg@, old(record).state),
    {
        match msg {
            Frame::Close(_) => record.close(),
            Frame::MessageBlob(_) => record.close(),
            _ => {},
        }
        let mut chunk = frame_body_str(msg);
        chunk.append("\n");
        self.out.push(chunk);
        self.eof = true;
        SendResult::Stop
    }

    /// Writes one heartbeat line and ends the response.
    pub fn send_heartbeat(&mut self)
        ensures
            final(self).eof,
            final(self).rec == old(self).rec,
            final(self).flags == old(self).flags,
            final(self).out@.len() == old(self).out@.len() + 1,
            forall|k: int|
                0 <= k < old(self).out@.len() ==> final(self).out@[k] == old(self).out@[k],
            final(self).out@.last()@ == frame_body(FrameView::Heartbeat) + "\n"@,
    {
        let mut chunk = "h".to_owned();
        chunk.append("\n");
        self.out.push(chunk);
        self.eof = true;
    }

    /// Writes one close line without a record (used when acquire fails) and
    /// ends the response.
    pub fn send_close(&mut self, code: CloseCode)
        ensures
            final(self).eof,
            final(self).rec == old(self).rec,
            final(self).flags == old(self).flags,
            final(self).out@.len() == old(self).out@.len() + 1,
            forall|k: int|
                0 <= k < old(self).out@.len() ==> final(self).out@[k] == old(self).out@[k],
            final(self).out@.last()@ == code@.spec_close_body() + "\n"@,
    {
        let mut chunk = code.close_body();
        chunk.append("\n");
        self.out.push(chunk);
        self.eof = true;
    }

    /// Replays buffered frames. One frame fills this one-shot response, so a
    /// non-empty buffer emits exactly its first frame and stops.
    pub fn send_buffered(&mut self, record: &mut Record) -> (r: SendResult)
        ensures
            old(record).buffer@.len() == 0 ==> r == SendResult::Continue && *final(self) == *old(
                self,
            ) && *final(record) == *old(record),
            old(record).buffer@.len() > 0 ==> {
                &&& r == SendResult::Stop
                &&& final(self).eof
                &&& final(self).rec == old(self).rec
                &&& final(self).flags == old(self).flags
                &&& final(self).out@.len() == old(self).out@.len() + 1
                &&& (forall|k: int|
                    0 <= k < old(self).out@.len() ==> final(self).out@[k] == old(self).out@[k])
                &&& final(self).out@.last()@ == frame_body(old(record).buffer@[0]@) + "\n"@
                &&& final(record).sid == old(record).sid
                &&& final(record).buffer@ == old(record).buffer@.drop_first()
                &&& final(record).state == state_after_frame(
                    old(record).buffer@[0]@,
                    old(record).state,
                )
            },
    {
        while record.buffer.len() > 0
            invariant
                *self == *old(self),
                *record == *old(record),
            decreases record.buffer@.len(),
        {
            let entry = record.buffer.remove(0);
            let res = self.send(entry.as_ref(), record);
            if matches!(res, SendResult::Stop) {
                return SendResult::Stop;
            }
        }
        SendResult::Continue
    }

    /// Runs the shared transport state machine for one channel item. The
    /// returned record, if any, goes back to the registry at once.
    ///
    /// A live frame is buffered before readiness and written (ending the
    /// poll) after it; `Ready` replays the buffer and then either releases
    /// (if a stop was produced during acquire) or goes ready.
    pub fn handle_message(&mut self, msg: ChannelItem) -> (rel: Option<Record>)
        ensures
            msg is Frame && old(self).rec is None ==> *final(self) == *old(self) && rel is None,
            msg matches ChannelItem::Frame(f) ==> ((old(self).rec is Some && !old(
                self,
            ).flags.ready) ==> {
                &&& rel is None
                &&& final(self).flags == old(self).flags
                &&& final(self).out == old(self).out
                &&& final(self).eof == old(self).eof
                &&& final(self).rec matches Some(r1) && r1.sid == old(self).rec.unwrap().sid
                    && r1.state == old(self).rec.unwrap().state && r1.buffer@ == old(
                    self,
                ).rec.unwrap().buffer@.push(RecordEntry::Frame(f))
            }),
            msg matches ChannelItem::Frame(f) ==> ((old(self).rec is Some && old(
                self,
            ).flags.ready) ==> {
                &&& final(self).rec is None
                &&& final(self).eof
                &&& final(self).flags == old(self).flags
                &&& final(self).out@.len() == old(self).out@.len() + 1
                &&& (forall|k: int|
                    0 <= k < old(self).out@.len() ==> final(self).out@[k] == old(self).out@[k])
                &&& final(self).out@.last()@ == frame_body(f@) + "\n"@
                &&& (rel matches Some(r1) && r1.sid == old(self).rec.unwrap().sid && r1.buffer
                    == old(self).rec.unwrap().buffer && r1.state == state_after_frame(
                    f@,
                    old(self).rec.unwrap().state,
                ))
            }),
            msg is Ready && old(self).rec is None ==> {
                &&& rel is None
                &&& final(self).rec is None
                &&& final(self).out == old(self).out
                &&& final(self).eof == old(self).eof
                &&& final(self).flags.release == old(self).flags.release
                &&& final(self).flags.ready == (old(self).flags.ready || !old(
                    self,
                ).flags.release)
            },
            (msg is Ready && old(self).rec is Some && old(self).rec.unwrap().buffer@.len()
                == 0) ==> {
                &&& final(self).out == old(self).out
                &&& final(self).eof == old(self).eof
                &&& final(self).flags.release == old(self).flags.release
                &&& (old(self).flags.release ==> rel == old(self).rec && final(self).rec is None
                    && final(self).flags.ready == old(self).flags.ready)
                &&& (!old(self).flags.release ==> rel is None && final(self).rec == old(self).rec
                    && final(self).flags.ready)
            },
            (msg is Ready && old(self).rec is Some && old(self).rec.unwrap().buffer@.len()
                > 0) ==> {
                &&& final(self).eof
                &&& final(self).rec is None
                &&& final(self).out@.len() == old(self).out@.len() + 1
                &&& (forall|k: int|
                    0 <= k < old(self).out@.len() ==> final(self).out@[k] == old(self).out@[k])
                &&& final(self).out@.last()@ == frame_body(old(self).rec.unwrap().buffer@[0]@)
                    + "\n"@
                &&& (rel matches Some(r1) && r1.sid == old(self).rec.unwrap().sid && r1.buffer@
                    == old(self).rec.unwrap().buffer@.drop_first() && r1.state
                    == state_after_frame(
                    old(self).rec.unwrap().buffer@[0]@,
                    old(self).rec.unwrap().state,
                ))
                &&& final(self).flags.release == old(self).flags.release
                &&& final(self).flags.ready == (old(self).flags.ready || !old(
                    self,
                ).flags.release)
            },
    {
        match msg {
            ChannelItem::Frame(f) => {
                match self.rec.take() {
                    Some(mut rec) => {
                        if self.flags.ready {
                            let res = self.send(&f, &mut rec);
                            if matches!(res, SendResult::Stop) {
                                Some(rec)
                            } else {
                                self.rec = Some(rec);
                                None
                            }
                        } else {
                            rec.add(RecordEntry::Frame(f));
                            self.rec = Some(rec);
                            None
                        }
                    },
                    None => None,
                }
            },
            ChannelItem::Ready => {
                let mut rel: Option<Record> = None;
                match self.rec.take() {
                    Some(mut rec) => {
                        let res = self.send_buffered(&mut rec);
                        if matches!(res, SendResult::Stop) {
                            rel = Some(rec);
                        } else {
                            self.rec = Some(rec);
                        }
                    },
                    None => {},
                }
                if self.flags.release {
                    if rel.is_none() {
                        rel = self.rec.take();
                    }
                } else {
                    self.flags.ready = true;
                }
                rel
            },
        }
    }

    /// Finishes the acquire handshake with what the registry answered.
    ///
    /// A `New` record goes `Running` and gets its `Open` frame: the one
    /// moment a session's open frame is written. A `Running` record replays
    /// its buffer. A terminal record gets its pending close frame and goes
    /// straight back. A refused acquire writes the error's close frame.
    /// A one-shot write stops the poll, so the record is marked for release
    /// as soon as `Ready` runs.
    pub fn init_transport(&mut self, res: Result<Record, SessionError>) -> (rel: Option<Record>)
        requires
            old(self).rec is None,
            !old(self).flags.release,
        ensures
            final(self).flags.ready == old(self).flags.ready,
            res matches Ok(rec) ==> (rec.state == SessionState::New ==> {
                &&& rel is None
                &&& final(self).eof
                &&& final(self).out@.len() == old(self).out@.len() + 1
                &&& (forall|k: int|
                    0 <= k < old(self).out@.len() ==> final(self).out@[k] == old(self).out@[k])
                &&& final(self).out@.last()@ == frame_body(FrameView::Open) + "\n"@
                &&& final(self).flags.release
                &&& (final(self).rec matches Some(r1) && r1.sid == rec.sid && r1.state
                    == SessionState::Running && r1.buffer == rec.buffer)
            }),
            res matches Ok(rec) ==> ((rec.state == SessionState::Running && rec.buffer@.len()
                == 0) ==> {
                &&& rel is None
                &&& final(self).out == old(self).out
                &&& final(self).eof == old(self).eof
                &&& !final(self).flags.release
                &&& final(self).rec == Some(rec)
            }),
            res matches Ok(rec) ==> ((rec.state == SessionState::Running && rec.buffer@.len()
                > 0) ==> {
                &&& rel is None
                &&& final(self).eof
                &&& final(self).out@.len() == old(self).out@.len() + 1
                &&& (forall|k: int|
                    0 <= k < old(self).out@.len() ==> final(self).out@[k] == old(self).out@[k])
                &&& final(self).out@.last()@ == frame_body(rec.buffer@[0]@) + "\n"@
                &&& final(self).flags.release
                &&& (final(self).rec matches Some(r1) && r1.sid == rec.sid && r1.buffer@
                    == rec.buffer@.drop_first() && r1.state == state_after_frame(
                    rec.buffer@[0]@,
                    rec.state,
                ))
            }),
            res matches Ok(rec) ==> ((rec.state == SessionState::Interrupted || rec.state
                == SessionState::Closed) ==> {
                &&& final(self).rec is None
                &&& final(self).eof
                &&& !final(self).flags.release
                &&& final(self).out@.len() == old(self).out@.len() + 1
                &&& (forall|k: int|
                    0 <= k < old(self).out@.len() ==> final(self).out@[k] == old(self).out@[k])
                &&& final(self).out@.last()@ == frame_body(
                    FrameView::Close(
                        if rec.state == SessionState::Interrupted {
                            CloseCodeView::Interrupted
                        } else {
                            CloseCodeView::GoAway
                        },
                    ),
                ) + "\n"@
                &&& (rel matches Some(r1) && r1.sid == rec.sid && r1.buffer == rec.buffer
                    && r1.state == SessionState::Closed)
            }),
            res matches Err(e) ==> {
                &&& rel is None
                &&& final(self).rec is None
                &&& final(self).eof
                &&& !final(self).flags.release
                &&& final(self).out@.len() == old(self).out@.len() + 1
                &&& (forall|k: int|
                    0 <= k < old(self).out@.len() ==> final(self).out@[k] == old(self).out@[k])
                &&& final(self).out@.last()@ == e.spec_close_code()@.spec_close_body() + "\n"@
            },
    {
        match res {
            Ok(mut rec) => {
                match rec.state {
                    SessionState::Running => {
                        let r = self.send_buffered(&mut rec);
                        if matches!(r, SendResult::Stop) {
                            self.flags.release = true;
                        }
                        self.rec = Some(rec);
                        None
                    },
                    SessionState::New => {
                        rec.state = SessionState::Running;
                        let r = self.send(&Frame::Open, &mut rec);
                        if matches!(r, SendResult::Stop) {
                            self.flags.release = true;
                        } else {
                            let r2 = self.send_buffered(&mut rec);
                            if matches!(r2, SendResult::Stop) {
                                self.flags.release = true;
                            }
                        }
                        self.rec = Some(rec);
                        None
                    },
                    SessionState::Interrupted => {
                        self.send(&Frame::Close(CloseCode::Interrupted), &mut rec);
                        Some(rec)
                    },
                    SessionState::Closed => {
                        self.send(&Frame::Close(CloseCode::GoAway), &mut rec);
                        Some(rec)
                    },
                }
            },
            Err(e) => {
                self.send_close(e.close_code());
                None
            },
        }
    }

    /// The transport is going away: the record, if held, goes back to the
    /// registry, marked interrupted when the client vanished without a clean
    /// close.
    pub fn stopping(&mut self, connected: bool) -> (rel: Option<Record>)
        ensures
            final(self).rec is None,
            final(self).flags == old(self).flags,
            final(self).out == old(self).out,
            final(self).eof == old(self).eof,
            old(self).rec is None ==> rel is None,
            old(self).rec matches Some(r0) ==> (connected ==> rel == Some(r0)),
            old(self).rec matches Some(r0) ==> (!connected ==> (rel matches Some(r1) && r1.sid
                == r0.sid && r1.buffer == r0.buffer && r1.state == (
            if r0.state == SessionState::Running {
                SessionState::Interrupted
            } else {
                r0.state
            }))),
    {
        match self.rec.take() {
            Some(mut rec) => {
                if !connected {
                    rec.interrupted();
                }
                Some(rec)
            },
            None => None,
        }
    }


    /// Where the transport parks its record between events.
    pub fn session_record(&mut self) -> (r: &mut Option<Record>)
        ensures
            *r == old(self).rec,
            final(self).rec == *final(r),
            final(self).flags == old(self).flags,
            final(self).out == old(self).out,
            final(self).eof == old(self).eof,
    {
        &mut self.rec
    }

    /// The transport's state bits.
    pub fn flags(&mut self) -> (r: &mut Flags)
        ensures
            *r == old(self).flags,
            final(self).flags == *final(r),
            final(self).rec == old(self).rec,
            final(self).out == old(self).out,
            final(self).eof == old(self).eof,
    {
        &mut self.flags
    }

    /// A broadcast frame reaches the transport directly: it is written if
    /// the record is here, and dropped otherwise (the registry buffers for
    /// parked sessions itself).
    pub fn handle_broadcast(&mut self, msg: &Frame)
        ensures
            old(self).rec is None ==> *final(self) == *old(self),
            old(self).rec is Some ==> {
                &&& final(self).eof
                &&& final(self).flags == old(self).flags
                &&& final(self).out@.len() == old(self).out@.len() + 1
                &&& (forall|k: int|
                    0 <= k < old(self).out@.len() ==> final(self).out@[k] == old(self).out@[k])
                &&& final(self).out@.last()@ == frame_body(msg@) + "\n"@
                &&& (final(self).rec matches Some(r1) && r1.sid == old(self).rec.unwrap().sid
                    && r1.buffer == old(self).rec.unwrap().buffer && r1.state
                    == state_after_frame(msg@, old(self).rec.unwrap().state))
            },
    {
        match self.rec.take() {
            Some(mut rec) => {
                self.send(msg, &mut rec);
                self.rec = Some(rec);
            },
            None => {},
        }
    }
}

/// The semantic content a client reads back from one frame line.
#[derive(Debug)]
pub enum Decoded {
    Open,
    Heartbeat,
    /// The payloads of an `a[...]` line, in order.
    Msgs(Vec<String>),
    Close(CloseCode),
}

/// Decodes one XHR frame line, inverting [`Xhr::send`]: every line that
/// `send` writes comes back as the frame content it was written from.
pub fn decode_xhr_line(line: &str) -> (r: Option<Decoded>)
    ensures
        line@ == frame_body(FrameView::Open) + "\n"@ ==> (r matches Some(d) && d is Open),
        line@ == frame_body(FrameView::Heartbeat) + "\n"@ ==> (r matches Some(d)
            && d is Heartbeat),
        forall|m: Seq<char>|
            line@ == frame_body(FrameView::Message(m)) + "\n"@ ==> (r matches Some(d)
                && d matches Decoded::Msgs(v) && v.deep_view() == seq![m]),
        forall|v: Seq<char>, l: Seq<Seq<char>>|
            line@ == frame_body(FrameView::MessageVec(v)) + "\n"@ && v.len() >= 2 && v[0] == '['
                && json_msgs(v) == Some(l) ==> (r matches Some(d) && d matches Decoded::Msgs(vv)
                && vv.deep_view() == l),
        line@ == CloseCodeView::GoAway.spec_close_body() + "\n"@ ==> (r matches Some(d)
            && d matches Decoded::Close(c) && c@ == CloseCodeView::GoAway),
        line@ == CloseCodeView::Acquired.spec_close_body() + "\n"@ ==> (r matches Some(d)
            && d matches Decoded::Close(c) && c@ == CloseCodeView::Acquired),
        line@ == CloseCodeView::Interrupted.spec_close_body() + "\n"@ ==> (r matches Some(d)
            && d matches Decoded::Close(c) && c@ == CloseCodeView::Interrupted),
        line@ == CloseCodeView::InternalError.spec_close_body() + "\n"@ ==> (r matches Some(d)
            && d matches Decoded::Close(c) && c@ == CloseCodeView::InternalError),
    {
        proof {
            reveal_strlit("o");
            reveal_strlit("h");
            reveal_strlit("a");
            reveal_strlit("a[");
            reveal_strlit("]");
            reveal_strlit("\n");
            reveal_strlit("o\n");
            reveal_strlit("h\n");
            reveal_strlit("c[3000,\"Go away!\"]");
            reveal_strlit("c[3000,\"Go away!\"]\n");
            reveal_strlit("c[2010,\"Another connection still open\"]");
            reveal_strlit("c[2010,\"Another connection still open\"]\n");
            reveal_strlit("c[1002,\"Connection interrupted\"]");
            reveal_strlit("c[1002,\"Connection interrupted\"]\n");
            reveal_strlit("c[1011,\"Internal error\"]");
            reveal_strlit("c[1011,\"Internal error\"]\n");
            assert("o"@ + "\n"@ =~= "o\n"@);
            assert("h"@ + "\n"@ =~= "h\n"@);
            assert("c[3000,\"Go away!\"]"@ + "\n"@ =~= "c[3000,\"Go away!\"]\n"@);
            assert("c[2010,\"Another connection still open\"]"@ + "\n"@
                =~= "c[2010,\"Another connection still open\"]\n"@);
            assert("c[1002,\"Connection interrupted\"]"@ + "\n"@
                =~= "c[1002,\"Connection interrupted\"]\n"@);
            assert("c[1011,\"Internal error\"]"@ + "\n"@ =~= "c[1011,\"Internal error\"]\n"@);
        }
        let n = line.unicode_len();
        if n >= 4 && line.get_char(0) == 'a' && line.get_char(1) == '['
            && line.get_char(n - 1) == '\n' {
            let inner = line.substring_char(1, n - 1);
            proof {
                assert forall|m: Seq<char>|
                    line@ == frame_body(FrameView::Message(m)) + "\n"@ implies inner@ == seq![
                    '[',
                ] + json_quoted(m) + seq![']'] by {
                    assert(inner@ =~= seq!['['] + json_quoted(m) + seq![']']);
                }
                assert forall|v: Seq<char>|
                    line@ == frame_body(FrameView::MessageVec(v)) + "\n"@ implies inner@
                    == v by {
                    assert(inner@ =~= v);
                }
            }
            match json_parse_msgs(inner) {
                Some(v) => Some(Decoded::Msgs(v)),
                None => None,
            }
        } else if n == 2 && line.get_char(0) == 'o' && line.get_char(1) == '\n' {
            Some(Decoded::Open)
        } else if n == 2 && line.get_char(0) == 'h' && line.get_char(1) == '\n' {
            Some(Decoded::Heartbeat)
        } else if str_eq(line, "c[3000,\"Go away!\"]\n") {
            Some(Decoded::Close(CloseCode::GoAway))
        } else if str_eq(line, "c[2010,\"Another connection still open\"]\n") {
            Some(Decoded::Close(CloseCode::Acquired))
        } else if str_eq(line, "c[1002,\"Connection interrupted\"]\n") {
            Some(Decoded::Close(CloseCode::Interrupted))
        } else if str_eq(line, "c[1011,\"Internal error\"]\n") {
            Some(Decoded::Close(CloseCode::InternalError))
        } else {
            None
        }
    }

} // verus!
