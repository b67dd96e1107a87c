//! EventSource: a streaming GET transport. Every frame goes out as one
//! server-sent event, `data: <frame>\r\n\r\n`, until the byte cap or a close
//! stops the response.

use vstd::prelude::*;
use vstd::string::StringExecFns;
use vstd::utf8::encode_utf8;

use crate::manager::{Record, RecordEntry};
use crate::protocol::{CloseCode, CloseCodeView, Frame, FrameView, SessionError,
    SessionState};
use crate::transports::{entry_views, frame_body, frame_body_str, lemma_entry_views_index,
    lemma_entry_views_len, lemma_str_views_push, state_after_frame, str_views, ChannelItem,
    Flags, HttpMethod, SendResult};

verus! {

/// The server-sent event one frame becomes on this wire.
pub open spec fn event_unit(f: FrameView) -> Seq<char> {
    "data: "@ + frame_body(f) + "\r\n\r\n"@
}

/// The `str::len` byte count the size accounting charges for one frame.
pub open spec fn event_bytes(f: FrameView) -> int {
    encode_utf8(event_unit(f)).len() as usize as int
}

/// Addition clipped at the machine limit, as the size counter computes it.
pub open spec fn sat_add(a: int, b: int) -> int {
    if a + b > usize::MAX as int {
        usize::MAX as int
    } else {
        a + b
    }
}

/// Whether the response stops after writing `f` with the size counter at
/// `size1`: a close (or a binary payload, rejected as an internal-error
/// close) always stops; otherwise the byte cap decides.
pub open spec fn event_stops(f: FrameView, size1: int, maxsize: int) -> bool {
    f is Close || f is MessageBlob || size1 > maxsize
}

/// Replaying frames until one stops the response: returns the events
/// written, the size counter, the record state, the frames left unwritten,
/// and whether the response stopped.
pub open spec fn event_drain(fs: Seq<FrameView>, size: int, maxsize: int, st: SessionState) -> (
    Seq<Seq<char>>,
    int,
    SessionState,
    Seq<FrameView>,
    bool,
)
    decreases fs.len(),
{
    if fs.len() == 0 {
        (Seq::empty(), size, st, Seq::empty(), false)
    } else {
        let f = fs[0];
        let size1 = sat_add(size, event_bytes(f));
        let st1 = state_after_frame(f, st);
        if event_stops(f, size1, maxsize) {
            (seq![event_unit(f)], size1, st1, fs.drop_first(), true)
        } else {
            let rest = event_drain(fs.drop_first(), size1, maxsize, st1);
            (seq![event_unit(f)] + rest.0, rest.1, rest.2, rest.3, rest.4)
        }
    }
}

/// A replay that was not stopped has written everything.
proof fn lemma_event_drain_rem(fs: Seq<FrameView>, size: int, maxsize: int, st: SessionState)
    ensures
        !event_drain(fs, size, maxsize, st).4 ==> event_drain(fs, size, maxsize, st).3 == Seq::<
            FrameView,
        >::empty(),
    decreases fs.len(),
{
    if fs.len() > 0 {
        let f = fs[0];
        let size1 = sat_add(size, event_bytes(f));
        let st1 = state_after_frame(f, st);
        if !event_stops(f, size1, maxsize) {
            lemma_event_drain_rem(fs.drop_first(), size1, maxsize, st1);
        }
    }
}

/// The EventSource transport for one response. `out` is the events written,
/// in order.
#[derive(Debug)]
pub struct EventSource {
    pub size: usize,
    pub maxsize: usize,
    pub rec: Option<Record>,
    pub flags: Flags,
    pub out: Vec<String>,
    pub eof: bool,
}

/// What an EventSource request gets before any session work.
#[derive(Debug)]
pub enum EventSourceInit {
    /// Any method besides `GET`: answer `404 Not Found`.
    NotFound,
    /// A `GET`: run this fresh transport.
    Transport(EventSource),
}

impl EventSource {
    /// Dispatches on the request method, as the endpoint does.
    pub fn init(method: HttpMethod, maxsize: usize) -> (r: EventSourceInit)
        ensures
            method == HttpMethod::Get ==> (r matches EventSourceInit::Transport(t)
                && t.rec is None && !t.flags.ready && !t.flags.release && t.out@.len() == 0
                && !t.eof && t.size == 0 && t.maxsize == maxsize),
            method != HttpMethod::Get ==> r is NotFound,
    {
        match method {
            HttpMethod::Get => EventSourceInit::Transport(
                EventSource {
                    size: 0,
                    maxsize,
                    rec: None,
                    flags: Flags::empty(),
                    out: Vec::new(),
                    eof: false,
                },
            ),
            _ => EventSourceInit::NotFound,
        }
    }

    /// Writes one frame as one server-sent event and charges its bytes to
    /// the size counter. A close frame (or a binary payload, rejected as an
    /// internal-error close) closes the record and stops the response;
    /// otherwise the response stops once the counter passes the cap.
    pub fn send(&mut self, msg: &Frame, record: &mut Record) -> (r: SendResult)
        ensures
            final(self).rec == old(self).rec,
            final(self).flags == old(self).flags,
            final(self).maxsize == old(self).maxsize,
            final(self).out@.len() == old(self).out@.len() + 1,
            forall|k: int|
                0 <= k < old(self).out@.len() ==> final(self).out@[k] == old(self).out@[k],
            final(self).out@.last()@ == event_unit(msg@),
            final(self).size as int == sat_add(old(self).size as int, event_bytes(msg@)),
            final(record).sid == old(record).sid,
            final(record).buffer == old(record).buffer,
            final(record).state == state_after_frame(msg@, old(record).state),
            r == SendResult::Stop <==> event_stops(
                msg@,
                final(self).size as int,
                old(self).maxsize as int,
            ),
            r == SendResult::Stop ==> final(self).eof,
            r == SendResult::Continue ==> final(self).eof == old(self).eof,
    {
        let stops_here = match msg {
            Frame::Close(_) => {
                record.close();
                true
            },
            Frame::MessageBlob(_) => {
                record.close();
                true
            },
            _ => false,
        };
        let mut chunk = "data: ".to_owned();
        let body = frame_body_str(msg);
        chunk.append(body.as_str());
        chunk.append("\r\n\r\n");
        let blen = chunk.as_str().len();
        self.size = match self.size.checked_add(blen) {
            Some(v) => v,
            None => usize::MAX,
        };
        self.out.push(chunk);
        if stops_here {
            self.eof = true;
            SendResult::Stop
        } else if self.size > self.maxsize {
            self.eof = true;
            SendResult::Stop
        } else {
            SendResult::Continue
        }
    }

    /// Writes one close event without a record (used when acquire fails) and
    /// ends the response.
    pub fn send_close(&mut self, code: CloseCode)
        ensures
            final(self).rec == old(self).rec,
            final(self).flags == old(self).flags,
            final(self).eof,
            final(self).maxsize == old(self).maxsize,
            final(self).out@.len() == old(self).out@.len() + 1,
            forall|k: int|
                0 <= k < old(self).out@.len() ==> final(self).out@[k] == old(self).out@[k],
            final(self).out@.last()@ == "data: "@ + code@.spec_close_body() + "\r\n\r\n"@,
    {
        let mut chunk = "data: ".to_owned();
        let body = code.close_body();
        chunk.append(body.as_str());
        chunk.append("\r\n\r\n");
        self.out.push(chunk);
        self.eof = true;
    }

    /// One heartbeat tick: a heartbeat event is written exactly when the
    /// record is attached and the transport is ready.
    pub fn hb(&mut self)
        ensures
            !(old(self).flags.ready && old(self).rec is Some) ==> *final(self) == *old(self),
            old(self).flags.ready && old(self).rec is Some ==> {
                &&& final(self).rec == old(self).rec
                &&& final(self).flags == old(self).flags
                &&& final(self).eof == old(self).eof
                &&& final(self).size == old(self).size
                &&& final(self).maxsize == old(self).maxsize
                &&& final(self).out@.len() == old(self).out@.len() + 1
                &&& (forall|k: int|
                    0 <= k < old(self).out@.len() ==> final(self).out@[k] == old(self).out@[k])
                &&& final(self).out@.last()@ == event_unit(FrameView::Heartbeat)
            },
    {
        if self.flags.ready && self.rec.is_some() {
            let mut chunk = "data: ".to_owned();
            chunk.append("h");
            chunk.append("\r\n\r\n");
            self.out.push(chunk);
        }
    }

    /// Replays buffered frames in order until one stops the response; see
    /// [`event_drain`] for the exact shape.
    pub fn send_buffered(&mut self, record: &mut Record) -> (r: SendResult)
        ensures
            ({
                let d = event_drain(
                    entry_views(old(record).buffer@),
                    old(self).size as int,
                    old(self).maxsize as int,
                    old(record).state,
                );
                &&& str_views(final(self).out@) == str_views(old(self).out@) + d.0
                &&& final(self).size as int == d.1
                &&& final(record).state == d.2
                &&& final(record).buffer@ == old(record).buffer@.subrange(
                    old(record).buffer@.len() - d.3.len(),
                    old(record).buffer@.len() as int,
                )
                &&& entry_views(final(record).buffer@) == d.3
                &&& (r == SendResult::Stop <==> d.4)
                &&& (r == SendResult::Stop ==> final(self).eof)
                &&& (r == SendResult::Continue ==> final(self).eof == old(self).eof)
                &&& final(self).rec == old(self).rec
                &&& final(self).flags == old(self).flags
                &&& final(self).maxsize == old(self).maxsize
                &&& final(record).sid == old(record).sid
            }),
    {
        let ghost all = entry_views(old(record).buffer@);
        let ghost n0 = old(record).buffer@.len() as int;
        let ghost size0 = old(self).size as int;
        let ghost max0 = old(self).maxsize as int;
        let ghost st0 = old(record).state;
        proof {
            lemma_entry_views_len(old(record).buffer@);
            assert(all.subrange(0, n0) =~= all);
        }
        let ghost k: int = 0;
        let ghost done: Seq<Seq<char>> = Seq::empty();
        while record.buffer.len() > 0
            invariant
                0 <= k <= n0,
                n0 == old(record).buffer@.len(),
                all == entry_views(old(record).buffer@),
                all.len() == n0,
                record.buffer@ =~= old(record).buffer@.subrange(k, n0),
                self.rec == old(self).rec,
                self.flags == old(self).flags,
                self.maxsize == old(self).maxsize && max0 == old(self).maxsize as int,
                size0 == old(self).size as int,
                st0 == old(record).state,
                self.eof == old(self).eof,
                record.sid == old(record).sid,
                str_views(self.out@) =~= str_views(old(self).out@) + done,
                ({
                    let d = event_drain(all.subrange(k, n0), self.size as int, max0, record.state);
                    let dfull = event_drain(all, size0, max0, st0);
                    &&& dfull.0 == done + d.0
                    &&& dfull.1 == d.1
                    &&& dfull.2 == d.2
                    &&& dfull.3 == d.3
                    &&& dfull.4 == d.4
                }),
            decreases record.buffer@.len(),
        {
            let ghost cur = all.subrange(k, n0);
            let ghost size_h = self.size as int;
            let ghost st_h = record.state;
            proof {
                lemma_entry_views_index(old(record).buffer@, k);
                assert(record.buffer@[0] == old(record).buffer@[k]);
                assert(cur[0] == all[k]);
            }
            let entry = record.buffer.remove(0);
            let ghost out_before = self.out@;
            let res = self.send(entry.as_ref(), record);
            proof {
                assert(self.out@ == out_before.push(self.out@.last()));
                lemma_str_views_push(out_before, self.out@.last());
                k = k + 1;
                done = done.push(event_unit(all[k - 1]));
                assert(record.buffer@ =~= old(record).buffer@.subrange(k, n0));
                assert(cur.drop_first() =~= all.subrange(k, n0));
                assert(str_views(self.out@) =~= str_views(old(self).out@) + done);
            }
            if matches!(res, SendResult::Stop) {
                proof {
                    let f = all[k - 1];
                    let d_head = event_drain(cur, size_h, max0, st_h);
                    assert(event_stops(f, self.size as int, max0));
                    assert(d_head.3 == cur.drop_first());
                    assert(d_head.0 == seq![event_unit(f)]);
                    assert(d_head.1 == self.size as int);
                    assert(d_head.2 == record.state);
                    assert(d_head.4);
                    let dfull = event_drain(all, size0, max0, st0);
                    assert(dfull.3 =~= all.subrange(k, n0));
                    assert(entry_views(record.buffer@) =~= dfull.3) by {
                        lemma_entry_views_suffix(old(record).buffer@, k);
                        assert(entry_views(old(record).buffer@.subrange(k, n0)) =~= entry_views(
                            old(record).buffer@,
                        ).subrange(k, n0));
                    }
                    assert(dfull.0 =~= done);
                    assert(dfull.3.len() == n0 - k);
                }
                return SendResult::Stop;
            }
            proof {
                let f = all[k - 1];
                let d_head = event_drain(cur, size_h, max0, st_h);
                assert(!event_stops(f, self.size as int, max0));
                assert(cur.drop_first() =~= all.subrange(k, n0));
                let d1 = event_drain(all.subrange(k, n0), self.size as int, max0, record.state);
                assert(d_head.0 == seq![event_unit(f)] + d1.0);
                let dfull = event_drain(all, size0, max0, st0);
                assert(dfull.0 =~= done + d1.0);
            }
        }
        proof {
            assert(k == n0);
            assert(all.subrange(n0, n0) =~= Seq::<FrameView>::empty());
            let dfull = event_drain(all, size0, max0, st0);
            assert(dfull.0 =~= done);
            assert(record.buffer@ =~= Seq::<RecordEntry>::empty());
            assert(entry_views(record.buffer@) =~= dfull.3);
        }
        SendResult::Continue
    }

    /// Runs the shared transport state machine for one channel item; the
    /// returned record, if any, goes back to the registry at once.
    pub fn handle_message(&mut self, msg: ChannelItem) -> (rel: Option<Record>)
        ensures
            msg is Frame && old(self).rec is None ==> *final(self) == *old(self) && rel is None,
            msg matches ChannelItem::Frame(f) ==> ((old(self).rec is Some && !old(
                self,
            ).flags.ready) ==> {
                &&& rel is None
                &&& final(self).flags == old(self).flags
                &&& final(self).out == old(self).out
                &&& final(self).size == old(self).size
                &&& final(self).eof == old(self).eof
                &&& final(self).rec matches Some(r1) && r1.sid == old(self).rec.unwrap().sid
                    && r1.state == old(self).rec.unwrap().state && r1.buffer@ == old(
                    self,
                ).rec.unwrap().buffer@.push(RecordEntry::Frame(f))
            }),
            msg matches ChannelItem::Frame(f) ==> ((old(self).rec is Some && old(
                self,
            ).flags.ready) ==> {
                &&& final(self).flags == old(self).flags
                &&& final(self).out@.len() == old(self).out@.len() + 1
                &&& (forall|k: int|
                    0 <= k < old(self).out@.len() ==> final(self).out@[k] == old(self).out@[k])
                &&& final(self).out@.last()@ == event_unit(f@)
                &&& final(self).size as int == sat_add(old(self).size as int, event_bytes(f@))
                &&& (event_stops(f@, final(self).size as int, old(self).maxsize as int) ==> {
                    &&& final(self).eof
                    &&& final(self).rec is None
                    &&& rel matches Some(r1) && r1.sid == old(self).rec.unwrap().sid
                        && r1.buffer == old(self).rec.unwrap().buffer && r1.state
                        == state_after_frame(f@, old(self).rec.unwrap().state)
                })
                &&& (!event_stops(f@, final(self).size as int, old(self).maxsize as int) ==> {
                    &&& rel is None
                    &&& final(self).eof == old(self).eof
                    &&& final(self).rec matches Some(r1) && r1.sid == old(
                        self,
                    ).rec.unwrap().sid && r1.buffer == old(self).rec.unwrap().buffer
                        && r1.state == state_after_frame(f@, old(self).rec.unwrap().state)
                })
            }),
            msg is Ready && old(self).rec is None ==> {
                &&& rel is None
                &&& final(self).rec is None
                &&& final(self).out == old(self).out
                &&& final(self).flags.release == old(self).flags.release
                &&& final(self).flags.ready == (old(self).flags.ready || !old(
                    self,
                ).flags.release)
            },
            msg is Ready && old(self).rec is Some ==> ({
                let d = event_drain(
                    entry_views(old(self).rec.unwrap().buffer@),
                    old(self).size as int,
                    old(self).maxsize as int,
                    old(self).rec.unwrap().state,
                );
                &&& str_views(final(self).out@) == str_views(old(self).out@) + d.0
                &&& final(self).size as int == d.1
                &&& final(self).flags.release == old(self).flags.release
                &&& final(self).flags.ready == (old(self).flags.ready || !old(
                    self,
                ).flags.release)
                &&& (d.4 ==> {
                    &&& final(self).rec is None
                    &&& rel matches Some(r1) && r1.sid == old(self).rec.unwrap().sid
                        && r1.state == d.2 && entry_views(r1.buffer@) == d.3
                })
                &&& ((!d.4 && old(self).flags.release) ==> {
                    &&& final(self).rec is None
                    &&& rel matches Some(r1) && r1.sid == old(self).rec.unwrap().sid
                        && r1.state == d.2 && r1.buffer@ == Seq::<RecordEntry>::empty()
                })
                &&& ((!d.4 && !old(self).flags.release) ==> {
                    &&& rel is None
                    &&& final(self).rec matches Some(r1) && r1.sid == old(
                        self,
                    ).rec.unwrap().sid && r1.state == d.2 && r1.buffer@ == Seq::<
                        RecordEntry,
                    >::empty()
                })
            }),
    {
        match msg {
            ChannelItem::Frame(f) => {
                match self.rec.take() {
                    Some(mut rec) => {
                        if self.flags.ready {
                            let res = self.send(&f, &mut rec);
                            if matches!(res, SendResult::Stop) {
                                Some(rec)
                            } else {
                                self.rec = Some(rec);
                                None
                            }
                        } else {
                            rec.add(RecordEntry::Frame(f));
                            self.rec = Some(rec);
                            None
                        }
                    },
                    None => None,
                }
            },
            ChannelItem::Ready => {
                let mut rel: Option<Record> = None;
                match self.rec.take() {
                    Some(mut rec) => {
                        let res = self.send_buffered(&mut rec);
                        if matches!(res, SendResult::Stop) {
                            rel = Some(rec);
                        } else {
                            self.rec = Some(rec);
                        }
                    },
                    None => {},
                }
                if self.flags.release {
                    if rel.is_none() {
                        rel = self.rec.take();
                    }
                } else {
                    self.flags.ready = true;
                }
                proof {
                    if old(self).rec is Some {
                        let r0 = old(self).rec.unwrap();
                        lemma_event_drain_rem(
                            entry_views(r0.buffer@),
                            old(self).size as int,
                            old(self).maxsize as int,
                            r0.state,
                        );
                        if rel is Some {
                            lemma_entry_views_len(rel.unwrap().buffer@);
                        }
                        if self.rec is Some {
                            lemma_entry_views_len(self.rec.unwrap().buffer@);
                        }
                    }
                }
                rel
            },
        }
    }

    /// Finishes the acquire handshake with what the registry answered; the
    /// replay may stop midway at the byte cap, leaving the rest of the
    /// buffer on the record.
    pub fn init_transport(&mut self, res: Result<Record, SessionError>) -> (rel: Option<Record>)
        requires
            old(self).rec is None,
            !old(self).flags.release,
        ensures
            final(self).flags.ready == old(self).flags.ready,
            final(self).maxsize == old(self).maxsize,
            res matches Ok(rec) ==> ((rec.state == SessionState::New || rec.state
                == SessionState::Running) ==> ({
                let st1 = if rec.state == SessionState::New {
                    SessionState::Running
                } else {
                    rec.state
                };
                let open_units: Seq<Seq<char>> = if rec.state == SessionState::New {
                    seq![event_unit(FrameView::Open)]
                } else {
                    Seq::empty()
                };
                let size1 = if rec.state == SessionState::New {
                    sat_add(old(self).size as int, event_bytes(FrameView::Open))
                } else {
                    old(self).size as int
                };
                let open_stops = rec.state == SessionState::New && event_stops(
                    FrameView::Open,
                    size1,
                    old(self).maxsize as int,
                );
                let d = event_drain(
                    entry_views(rec.buffer@),
                    size1,
                    old(self).maxsize as int,
                    st1,
                );
                &&& rel is None
                &&& (open_stops ==> {
                    &&& str_views(final(self).out@) == str_views(old(self).out@) + open_units
                    &&& final(self).size as int == size1
                    &&& final(self).flags.release
                    &&& final(self).rec matches Some(r1) && r1.sid == rec.sid && r1.state
                        == st1 && r1.buffer == rec.buffer
                })
                &&& (!open_stops ==> {
                    &&& str_views(final(self).out@) == str_views(old(self).out@) + open_units
                        + d.0
                    &&& final(self).size as int == d.1
                    &&& final(self).flags.release == d.4
                    &&& final(self).rec matches Some(r1) && r1.sid == rec.sid && r1.state
                        == d.2 && entry_views(r1.buffer@) == d.3
                })
            })),
            res matches Ok(rec) ==> ((rec.state == SessionState::Interrupted || rec.state
                == SessionState::Closed) ==> {
                &&& final(self).rec is None
                &&& !final(self).flags.release
                &&& final(self).out@.len() == old(self).out@.len() + 1
                &&& (forall|k: int|
                    0 <= k < old(self).out@.len() ==> final(self).out@[k] == old(self).out@[k])
                &&& final(self).out@.last()@ == event_unit(
                    FrameView::Close(
                        if rec.state == SessionState::Interrupted {
                            CloseCodeView::Interrupted
                        } else {
                            CloseCodeView::GoAway
                        },
                    ),
                )
                &&& rel matches Some(r1) && r1.sid == rec.sid && r1.buffer == rec.buffer
                    && r1.state == SessionState::Closed
            }),
            res matches Err(e) ==> {
                &&& rel is None
                &&& final(self).rec is None
                &&& !final(self).flags.release
                &&& final(self).out@.len() == old(self).out@.len() + 1
                &&& (forall|k: int|
                    0 <= k < old(self).out@.len() ==> final(self).out@[k] == old(self).out@[k])
                &&& final(self).out@.last()@ == "data: "@ + e.spec_close_code()@.spec_close_body()
                    + "\r\n\r\n"@
            },
    {
        match res {
            Ok(mut rec) => {
                match rec.state {
                    SessionState::Running => {
                        let r = self.send_buffered(&mut rec);
                        if matches!(r, SendResult::Stop) {
                            self.flags.release = true;
                        }
                        self.rec = Some(rec);
                        proof {
                            assert(str_views(old(self).out@) + Seq::<Seq<char>>::empty()
                                =~= str_views(old(self).out@));
                        }
                        None
                    },
                    SessionState::New => {
                        rec.state = SessionState::Running;
                        let ghost out_mid = self.out@;
                        let r = self.send(&Frame::Open, &mut rec);
                        proof {
                            assert(self.out@ == out_mid.push(self.out@.last()));
                            lemma_str_views_push(out_mid, self.out@.last());
                            assert(str_views(self.out@) =~= str_views(old(self).out@) + seq![
                                event_unit(FrameView::Open),
                            ]);
                        }
                        if matches!(r, SendResult::Stop) {
                            self.flags.release = true;
                        } else {
                            let r2 = self.send_buffered(&mut rec);
                            if matches!(r2, SendResult::Stop) {
                                self.flags.release = true;
                            }
                        }
                        self.rec = Some(rec);
                        None
                    },
                    SessionState::Interrupted => {
                        self.send(&Frame::Close(CloseCode::Interrupted), &mut rec);
                        Some(rec)
                    },
                    SessionState::Closed => {
                        self.send(&Frame::Close(CloseCode::GoAway), &mut rec);
                        Some(rec)
                    },
                }
            },
            Err(e) => {
                self.send_close(e.close_code());
                None
            },
        }
    }

    /// The transport is going away: the record, if held, goes back to the
    /// registry, marked interrupted when the client vanished without a clean
    /// close.
    pub fn stopping(&mut self, connected: bool) -> (rel: Option<Record>)
        ensures
            final(self).rec is None,
            final(self).flags == old(self).flags,
            final(self).out == old(self).out,
            final(self).eof == old(self).eof,
            old(self).rec is None ==> rel is None,
            old(self).rec matches Some(r0) ==> (connected ==> rel == Some(r0)),
            old(self).rec matches Some(r0) ==> (!connected ==> (rel matches Some(r1) && r1.sid
                == r0.sid && r1.buffer == r0.buffer && r1.state == (
            if r0.state == SessionState::Running {
                SessionState::Interrupted
            } else {
                r0.state
            }))),
    {
        match self.rec.take() {
            Some(mut rec) => {
                if !connected {
                    rec.interrupted();
                }
                Some(rec)
            },
            None => None,
        }
    }

    /// A broadcast frame reaches the transport directly: it is written if
    /// the record is here, and dropped otherwise. As in the one-frame send,
    /// the record is kept on the transport either way.
    pub fn handle_broadcast(&mut self, msg: &Frame)
        ensures
            old(self).rec is None ==> *final(self) == *old(self),
            old(self).rec is Some ==> {
                &&& final(self).flags == old(self).flags
                &&& final(self).out@.len() == old(self).out@.len() + 1
                &&& (forall|k: int|
                    0 <= k < old(self).out@.len() ==> final(self).out@[k] == old(self).out@[k])
                &&& final(self).out@.last()@ == event_unit(msg@)
                &&& final(self).rec matches Some(r1) && r1.sid == old(self).rec.unwrap().sid
                    && r1.buffer == old(self).rec.unwrap().buffer && r1.state
                    == state_after_frame(msg@, old(self).rec.unwrap().state)
            },
    {
        match self.rec.take() {
            Some(mut rec) => {
                self.send(msg, &mut rec);
                self.rec = Some(rec);
            },
            None => {},
        }
    }
}

/// The views of a buffer suffix are the suffix of the views.
proof fn lemma_entry_views_suffix(s: Seq<RecordEntry>, k: int)
    requires
        0 <= k <= s.len(),
    ensures
        entry_views(s.subrange(k, s.len() as int)) =~= entry_views(s).subrange(
            k,
            s.len() as int,
        ),
{
    lemma_entry_views_len(s);
    let tail = s.subrange(k, s.len() as int);
    lemma_entry_views_len(tail);
    assert forall|j: int| 0 <= j < tail.len() implies entry_views(tail)[j] == entry_views(
        s,
    ).subrange(k, s.len() as int)[j] by {
        lemma_entry_views_index(tail, j);
        lemma_entry_views_index(s, k + j);
    }
}

} // verus!
