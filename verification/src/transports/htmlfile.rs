//! HTMLFile: a streaming GET transport. After an HTML prelude that calls
//! into a parent-page callback, every frame is delivered as a script block
//! `<script>\np(<json-string>);\n</script>\r\n`, until the byte cap stops
//! the response.

use vstd::prelude::*;
use vstd::string::StringExecFns;
use vstd::utf8::encode_utf8;

use crate::json::{json_encode_str, json_quoted};
use crate::manager::{Record, RecordEntry};
use crate::protocol::{CloseCode, CloseCodeView, Frame, FrameView, SessionError,
    SessionState};
use crate::transports::{entry_views, frame_body, frame_body_str, lemma_entry_views_index,
    lemma_entry_views_len, lemma_str_views_push, state_after_frame, str_eq, str_views,
    ChannelItem, Flags, HttpMethod, SendResult};

verus! {

/// A character an HTMLFile callback may contain.
pub open spec fn callback_char_ok(c: char) -> bool {
    ||| 'a' <= c && c <= 'z'
    ||| 'A' <= c && c <= 'Z'
    ||| '0' <= c && c <= '9'
    ||| c == '_'
    ||| c == '.'
}

/// A valid callback: non-empty, letters, digits, underscores and dots only.
pub open spec fn valid_callback(s: Seq<char>) -> bool {
    s.len() > 0 && forall|i: int| 0 <= i < s.len() ==> callback_char_ok(s[i])
}

/// Checks a callback parameter.
pub fn check_callback(s: &str) -> (r: bool)
    ensures
        r == valid_callback(s@),
{
    let n = s.unicode_len();
    if n == 0 {
        return false;
    }
    let mut i: usize = 0;
    while i < n
        invariant
            n == s@.len(),
            i <= n,
            forall|j: int| 0 <= j < i ==> callback_char_ok(s@[j]),
        decreases n - i,
    {
        let c = s.get_char(i);
        let ok = ('a' <= c && c <= 'z') || ('A' <= c && c <= 'Z') || ('0' <= c && c <= '9') || c
            == '_' || c == '.';
        if !ok {
            return false;
        }
        i = i + 1;
    }
    true
}

/// One script block around an already-JSON-quoted payload.
pub open spec fn script_unit(q: Seq<char>) -> Seq<char> {
    "<script>\np("@ + q + ");\n</script>\r\n"@
}

/// The script block one frame becomes on this wire.
pub open spec fn html_unit(f: FrameView) -> Seq<char> {
    script_unit(json_quoted(frame_body(f)))
}

/// The UTF-8 byte count the size accounting charges for one frame: the
/// quoted payload plus the 25 bytes of the script wrapper.
pub open spec fn unit_bytes(f: FrameView) -> int {
    quoted_bytes(frame_body(f))
}

/// The `str::len` byte count of a JSON-quoted payload.
pub open spec fn quoted_bytes(body: Seq<char>) -> int {
    encode_utf8(json_quoted(body)).len() as usize as int
}

/// Addition clipped at the machine limit, as the size counter computes it.
pub open spec fn sat_add(a: int, b: int) -> int {
    if a + b > usize::MAX as int {
        usize::MAX as int
    } else {
        a + b
    }
}

/// Whether the response stops after writing `f` with the size counter at
/// `size1`: a close (or a binary payload, rejected as an internal-error
/// close) always stops; otherwise the byte cap decides.
pub open spec fn html_stops(f: FrameView, size1: int, maxsize: int) -> bool {
    f is Close || f is MessageBlob || size1 > maxsize
}

/// Replaying frames until one stops the response: returns the script blocks
/// written, the size counter, the record state, the frames left unwritten,
/// and whether the response stopped.
pub open spec fn html_drain(fs: Seq<FrameView>, size: int, maxsize: int, st: SessionState) -> (
    Seq<Seq<char>>,
    int,
    SessionState,
    Seq<FrameView>,
    bool,
)
    decreases fs.len(),
{
    if fs.len() == 0 {
        (Seq::empty(), size, st, Seq::empty(), false)
    } else {
        let f = fs[0];
        let size1 = sat_add(sat_add(size, unit_bytes(f)), 25);
        let st1 = state_after_frame(f, st);
        if html_stops(f, size1, maxsize) {
            (seq![html_unit(f)], size1, st1, fs.drop_first(), true)
        } else {
            let rest = html_drain(fs.drop_first(), size1, maxsize, st1);
            (seq![html_unit(f)] + rest.0, rest.1, rest.2, rest.3, rest.4)
        }
    }
}

/// The HTMLFile transport for one streaming response. `out` is the script
/// blocks written after the prelude, in order.
#[derive(Debug)]
pub struct HTMLFile {
    pub size: usize,
    pub maxsize: usize,
    pub rec: Option<Record>,
    pub flags: Flags,
    pub out: Vec<String>,
    pub eof: bool,
}

/// What an HTMLFile GET gets before any session work.
#[derive(Debug)]
pub enum HtmlFileInit {
    /// Any method besides `GET`: answer `404 Not Found`.
    NotFound,
    /// No `c` query parameter: answer `500` with
    /// `"callback" parameter required`.
    CallbackRequired,
    /// A malformed `c` parameter: answer `500` with
    /// `invalid "callback" parameter`.
    InvalidCallback,
    /// A valid callback: stream the prelude, then run this fresh transport.
    Transport(HTMLFile, String),
}

/// The `500` body for a missing callback.
pub fn callback_required_body() -> (r: &'static str)
    ensures
        r@ == "\"callback\" parameter required"@,
{
    "\"callback\" parameter required"
}

/// The `500` body for a malformed callback.
pub fn invalid_callback_body() -> (r: &'static str)
    ensures
        r@ == "invalid \"callback\" parameter"@,
{
    "invalid \"callback\" parameter"
}

/// The HTML prelude: a document that hands frames to `parent.<callback>`,
/// padded with 1024 spaces so browsers flush it at once.
pub open spec fn prelude_of(cb: Seq<char>) -> Seq<char> {
    "<!doctype html>\n<html><head>\n  <meta http-equiv=\"X-UA-Compatible\" content=\"IE=edge\" />\n  <meta http-equiv=\"Content-Type\" content=\"text/html; charset=UTF-8\" />\n</head><body><h2>Don't panic!</h2>\n  <script>\n    document.domain = document.domain;\n    var c = parent."@
        + cb
        + ";\n    c.start();\n    function p(d) {c.message(d);};\n    window.onload = function() {c.stop();};\n  </script>"@
        + Seq::new(1024, |i: int| ' ')
}

/// Renders the prelude for a callback.
pub fn build_prelude(cb: &str) -> (r: String)
    ensures
        r@ == prelude_of(cb@),
{
    let mut r =
        "<!doctype html>\n<html><head>\n  <meta http-equiv=\"X-UA-Compatible\" content=\"IE=edge\" />\n  <meta http-equiv=\"Content-Type\" content=\"text/html; charset=UTF-8\" />\n</head><body><h2>Don't panic!</h2>\n  <script>\n    document.domain = document.domain;\n    var c = parent.".to_owned();
    r.append(cb);
    r.append(
        ";\n    c.start();\n    function p(d) {c.message(d);};\n    window.onload = function() {c.stop();};\n  </script>",
    );
    let mut i: usize = 0;
    let ghost mid = r@;
    while i < 1024
        invariant
            i <= 1024,
            r@ =~= mid + Seq::new(i as nat, |j: int| ' '),
        decreases 1024 - i,
    {
        r.append(" ");
        i = i + 1;
        proof {
            reveal_strlit(" ");
            assert(mid + Seq::new((i - 1) as nat, |j: int| ' ') + " "@ =~= mid + Seq::new(
                i as nat,
                |j: int| ' ',
            ));
        }
    }
    r
}

impl HTMLFile {
    /// Dispatches on the request method and the `c` query parameter, as the
    /// endpoint does; a valid callback starts a fresh transport whose
    /// prelude is the returned document.
    pub fn init(method: HttpMethod, callback: Option<String>, maxsize: usize) -> (r: HtmlFileInit)
        ensures
            method != HttpMethod::Get ==> r is NotFound,
            method == HttpMethod::Get && callback is None ==> r is CallbackRequired,
            callback matches Some(cb) ==> ((method == HttpMethod::Get && !valid_callback(cb@))
                ==> r is InvalidCallback),
            callback matches Some(cb) ==> ((method == HttpMethod::Get && valid_callback(cb@))
                ==> (r matches HtmlFileInit::Transport(t, p) && t.rec is None && !t.flags.ready
                && !t.flags.release && t.out@.len() == 0 && !t.eof && t.size == 0 && t.maxsize
                == maxsize && p@ == prelude_of(cb@))),
    {
        if !matches!(method, HttpMethod::Get) {
            return HtmlFileInit::NotFound;
        }
        match callback {
            None => HtmlFileInit::CallbackRequired,
            Some(cb) => {
                if !check_callback(cb.as_str()) {
                    HtmlFileInit::InvalidCallback
                } else {
                    let prelude = build_prelude(cb.as_str());
                    HtmlFileInit::Transport(
                        HTMLFile {
                            size: 0,
                            maxsize,
                            rec: None,
                            flags: Flags::empty(),
                            out: Vec::new(),
                            eof: false,
                        },
                        prelude,
                    )
                }
            },
        }
    }

    /// Wraps one payload in a script block and charges its bytes plus the
    /// 25 wrapper bytes to the size counter, clipped at the machine limit.
    fn write(&mut self, s: &str)
        ensures
            final(self).rec == old(self).rec,
            final(self).flags == old(self).flags,
            final(self).eof == old(self).eof,
            final(self).maxsize == old(self).maxsize,
            final(self).out@.len() == old(self).out@.len() + 1,
            forall|k: int|
                0 <= k < old(self).out@.len() ==> final(self).out@[k] == old(self).out@[k],
            final(self).out@.last()@ == script_unit(json_quoted(s@)),
            final(self).size as int == sat_add(
                sat_add(old(self).size as int, quoted_bytes(s@)),
                25,
            ),
    {
        let b = json_encode_str(s);
        let blen = b.as_str().len();
        self.size = match self.size.checked_add(blen) {
            Some(v) => match v.checked_add(25) {
                Some(w) => w,
                None => usize::MAX,
            },
            None => usize::MAX,
        };
        let mut unit = "<script>\np(".to_owned();
        unit.append(b.as_str());
        unit.append(");\n</script>\r\n");
        self.out.push(unit);
    }

    /// Writes one frame as a script block. A close frame (or a binary
    /// payload, rejected as an internal-error close) closes the record and
    /// stops the response; otherwise the response stops once the size
    /// counter passes the cap.
    pub fn send(&mut self, msg: &Frame, record: &mut Record) -> (r: SendResult)
        ensures
            final(self).rec == old(self).rec,
            final(self).flags == old(self).flags,
            final(self).maxsize == old(self).maxsize,
            final(self).out@.len() == old(self).out@.len() + 1,
            forall|k: int|
                0 <= k < old(self).out@.len() ==> final(self).out@[k] == old(self).out@[k],
            final(self).out@.last()@ == html_unit(msg@),
            final(self).size as int == sat_add(
                sat_add(old(self).size as int, unit_bytes(msg@)),
                25,
            ),
            final(record).sid == old(record).sid,
            final(record).buffer == old(record).buffer,
            final(record).state == state_after_frame(msg@, old(record).state),
            r == SendResult::Stop <==> html_stops(
                msg@,
                final(self).size as int,
                old(self).maxsize as int,
            ),
            r == SendResult::Stop ==> final(self).eof,
            r == SendResult::Continue ==> final(self).eof == old(self).eof,
    {
        let stops_here = match msg {
            Frame::Close(_) => {
                record.close();
                true
            },
            Frame::MessageBlob(_) => {
                record.close();
                true
            },
            _ => false,
        };
        let body = frame_body_str(msg);
        self.write(body.as_str());
        if stops_here {
            self.eof = true;
            SendResult::Stop
        } else if self.size > self.maxsize {
            self.eof = true;
            SendResult::Stop
        } else {
            SendResult::Continue
        }
    }

    /// Writes one close block without a record (used when acquire fails).
    pub fn send_close(&mut self, code: CloseCode)
        ensures
            final(self).rec == old(self).rec,
            final(self).flags == old(self).flags,
            final(self).eof == old(self).eof,
            final(self).maxsize == old(self).maxsize,
            final(self).out@.len() == old(self).out@.len() + 1,
            forall|k: int|
                0 <= k < old(self).out@.len() ==> final(self).out@[k] == old(self).out@[k],
            final(self).out@.last()@ == script_unit(json_quoted(code@.spec_close_body())),
            final(self).size as int == sat_add(
                sat_add(old(self).size as int, quoted_bytes(code@.spec_close_body())),
                25,
            ),
    {
        let body = code.close_body();
        self.write(body.as_str());
    }

    /// Writes one heartbeat block, charging its bytes to the size counter.
    pub fn send_heartbeat(&mut self)
        ensures
            final(self).rec == old(self).rec,
            final(self).flags == old(self).flags,
            final(self).eof == old(self).eof,
            final(self).maxsize == old(self).maxsize,
            final(self).out@.len() == old(self).out@.len() + 1,
            forall|k: int|
                0 <= k < old(self).out@.len() ==> final(self).out@[k] == old(self).out@[k],
            final(self).out@.last()@ == html_unit(FrameView::Heartbeat),
            final(self).size as int == sat_add(
                sat_add(old(self).size as int, unit_bytes(FrameView::Heartbeat)),
                25,
            ),
    {
        self.write("h");
    }

    /// One heartbeat tick: a heartbeat block is written exactly when the
    /// record is attached and the transport is ready; otherwise the tick
    /// does nothing.
    pub fn hb(&mut self)
        ensures
            !(old(self).flags.ready && old(self).rec is Some) ==> *final(self) == *old(self),
            old(self).flags.ready && old(self).rec is Some ==> {
                &&& final(self).rec == old(self).rec
                &&& final(self).flags == old(self).flags
                &&& final(self).eof == old(self).eof
                &&& final(self).maxsize == old(self).maxsize
                &&& final(self).out@.len() == old(self).out@.len() + 1
                &&& (forall|k: int|
                    0 <= k < old(self).out@.len() ==> final(self).out@[k] == old(self).out@[k])
                &&& final(self).out@.last()@ == html_unit(FrameView::Heartbeat)
                &&& final(self).size as int == sat_add(
                    sat_add(old(self).size as int, unit_bytes(FrameView::Heartbeat)),
                    25,
                )
            },
    {
        if self.flags.ready && self.rec.is_some() {
            self.send_heartbeat();
        }
    }

    /// Replays buffered frames in order until one stops the response; see
    /// [`html_drain`] for the exact shape.
    pub fn send_buffered(&mut self, record: &mut Record) -> (r: SendResult)
        ensures
            ({
                let d = html_drain(
                    entry_views(old(record).buffer@),
                    old(self).size as int,
                    old(self).maxsize as int,
                    old(record).state,
                );
                &&& str_views(final(self).out@) == str_views(old(self).out@) + d.0
                &&& final(self).size as int == d.1
                &&& final(record).state == d.2
                &&& final(record).buffer@ == old(record).buffer@.subrange(
                    old(record).buffer@.len() - d.3.len(),
                    old(record).buffer@.len() as int,
                )
                &&& entry_views(final(record).buffer@) == d.3
                &&& (r == SendResult::Stop <==> d.4)
                &&& (r == SendResult::Stop ==> final(self).eof)
                &&& (r == SendResult::Continue ==> final(self).eof == old(self).eof)
                &&& final(self).rec == old(self).rec
                &&& final(self).flags == old(self).flags
                &&& final(self).maxsize == old(self).maxsize
                &&& final(record).sid == old(record).sid
            }),
    {
        let ghost all = entry_views(old(record).buffer@);
        let ghost n0 = old(record).buffer@.len() as int;
        let ghost size0 = old(self).size as int;
        let ghost max0 = old(self).maxsize as int;
        let ghost st0 = old(record).state;
        proof {
            lemma_entry_views_len(old(record).buffer@);
            assert(all.subrange(0, n0) =~= all);
        }
        let ghost k: int = 0;
        let ghost done: Seq<Seq<char>> = Seq::empty();
        while record.buffer.len() > 0
            invariant
                0 <= k <= n0,
                n0 == old(record).buffer@.len(),
                all == entry_views(old(record).buffer@),
                all.len() == n0,
                record.buffer@ =~= old(record).buffer@.subrange(k, n0),
                self.rec == old(self).rec,
                self.flags == old(self).flags,
                self.maxsize == old(self).maxsize,
                self.maxsize == old(self).maxsize && max0 == old(self).maxsize as int,
                size0 == old(self).size as int,
                st0 == old(record).state,
                self.eof == old(self).eof,
                record.sid == old(record).sid,
                str_views(self.out@) =~= str_views(old(self).out@) + done,
                ({
                    let d = html_drain(
                        all.subrange(k, n0),
                        self.size as int,
                        max0,
                        record.state,
                    );
                    let dfull = html_drain(all, size0, max0, st0);
                    &&& dfull.0 == done + d.0
                    &&& dfull.1 == d.1
                    &&& dfull.2 == d.2
                    &&& dfull.3 == d.3
                    &&& dfull.4 == d.4
                }),
            decreases record.buffer@.len(),
        {
            let ghost cur = all.subrange(k, n0);
            let ghost size_h = self.size as int;
            let ghost st_h = record.state;
            proof {
                lemma_entry_views_index(old(record).buffer@, k);
                assert(record.buffer@[0] == old(record).buffer@[k]);
                assert(cur[0] == all[k]);
            }
            let entry = record.buffer.remove(0);
            let ghost out_before = self.out@;
            let res = self.send(entry.as_ref(), record);
            proof {
                assert(self.out@ == out_before.push(self.out@.last()));
                lemma_str_views_push(out_before, self.out@.last());
                k = k + 1;
                done = done.push(html_unit(all[k - 1]));
                assert(record.buffer@ =~= old(record).buffer@.subrange(k, n0));
                assert(cur.drop_first() =~= all.subrange(k, n0));
                assert(str_views(self.out@) =~= str_views(old(self).out@) + done);
            }
            if matches!(res, SendResult::Stop) {
                proof {
                    let f = all[k - 1];
                    let d_head = html_drain(cur, size_h, max0, st_h);
                    assert(html_stops(f, self.size as int, max0));
                    assert(d_head.3 == cur.drop_first());
                    assert(d_head.0 == seq![html_unit(f)]);
                    assert(d_head.1 == self.size as int);
                    assert(d_head.2 == record.state);
                    assert(d_head.4);
                    let dfull = html_drain(all, size0, max0, st0);
                    assert(dfull.3 =~= all.subrange(k, n0));
                    assert(entry_views(record.buffer@) =~= dfull.3) by {
                        lemma_entry_views_suffix(old(record).buffer@, k);
                        assert(entry_views(old(record).buffer@.subrange(k, n0)) =~= entry_views(
                            old(record).buffer@,
                        ).subrange(k, n0));
                    }
                    assert(dfull.0 =~= done);
                    assert(dfull.3.len() == n0 - k);
                }
                return SendResult::Stop;
            }
            proof {
                let f = all[k - 1];
                let d_head = html_drain(cur, size_h, max0, st_h);
                assert(!html_stops(f, self.size as int, max0));
                assert(cur.drop_first() =~= all.subrange(k, n0));
                let d1 = html_drain(all.subrange(k, n0), self.size as int, max0, record.state);
                assert(d_head.0 == seq![html_unit(f)] + d1.0);
                let dfull = html_drain(all, size0, max0, st0);
                assert(dfull.0 =~= done + d1.0);
            }
        }
        proof {
            assert(k == n0);
            assert(all.subrange(n0, n0) =~= Seq::<FrameView>::empty());
            let dfull = html_drain(all, size0, max0, st0);
            assert(dfull.0 =~= done);
            assert(record.buffer@ =~= Seq::<RecordEntry>::empty());
            assert(entry_views(record.buffer@) =~= dfull.3);
        }
        SendResult::Continue
    }

    /// Runs the shared transport state machine for one channel item. The
    /// returned record, if any, goes back to the registry at once.
    pub fn handle_message(&mut self, msg: ChannelItem) -> (rel: Option<Record>)
        ensures
            msg is Frame && old(self).rec is None ==> *final(self) == *old(self) && rel is None,
            msg matches ChannelItem::Frame(f) ==> ((old(self).rec is Some && !old(
                self,
            ).flags.ready) ==> {
                &&& rel is None
                &&& final(self).flags == old(self).flags
                &&& final(self).out == old(self).out
                &&& final(self).size == old(self).size
                &&& final(self).eof == old(self).eof
                &&& final(self).rec matches Some(r1) && r1.sid == old(self).rec.unwrap().sid
                    && r1.state == old(self).rec.unwrap().state && r1.buffer@ == old(
                    self,
                ).rec.unwrap().buffer@.push(RecordEntry::Frame(f))
            }),
            msg matches ChannelItem::Frame(f) ==> ((old(self).rec is Some && old(
                self,
            ).flags.ready) ==> {
                &&& final(self).flags == old(self).flags
                &&& final(self).out@.len() == old(self).out@.len() + 1
                &&& (forall|k: int|
                    0 <= k < old(self).out@.len() ==> final(self).out@[k] == old(self).out@[k])
                &&& final(self).out@.last()@ == html_unit(f@)
                &&& final(self).size as int == sat_add(
                    sat_add(old(self).size as int, unit_bytes(f@)),
                    25,
                )
                &&& (html_stops(f@, final(self).size as int, old(self).maxsize as int) ==> {
                    &&& final(self).eof
                    &&& final(self).rec is None
                    &&& rel matches Some(r1) && r1.sid == old(self).rec.unwrap().sid
                        && r1.buffer == old(self).rec.unwrap().buffer && r1.state
                        == state_after_frame(f@, old(self).rec.unwrap().state)
                })
                &&& (!html_stops(f@, final(self).size as int, old(self).maxsize as int) ==> {
                    &&& rel is None
                    &&& final(self).eof == old(self).eof
                    &&& final(self).rec matches Some(r1) && r1.sid == old(
                        self,
                    ).rec.unwrap().sid && r1.buffer == old(self).rec.unwrap().buffer
                        && r1.state == state_after_frame(f@, old(self).rec.unwrap().state)
                })
            }),
            msg is Ready && old(self).rec is None ==> {
                &&& rel is None
                &&& final(self).rec is None
                &&& final(self).out == old(self).out
                &&& final(self).flags.release == old(self).flags.release
                &&& final(self).flags.ready == (old(self).flags.ready || !old(
                    self,
                ).flags.release)
            },
            msg is Ready && old(self).rec is Some ==> ({
                let d = html_drain(
                    entry_views(old(self).rec.unwrap().buffer@),
                    old(self).size as int,
                    old(self).maxsize as int,
                    old(self).rec.unwrap().state,
                );
                &&& str_views(final(self).out@) == str_views(old(self).out@) + d.0
                &&& final(self).size as int == d.1
                &&& final(self).flags.release == old(self).flags.release
                &&& final(self).flags.ready == (old(self).flags.ready || !old(
                    self,
                ).flags.release)
                &&& (d.4 ==> {
                    &&& final(self).rec is None
                    &&& rel matches Some(r1) && r1.sid == old(self).rec.unwrap().sid
                        && r1.state == d.2 && entry_views(r1.buffer@) == d.3
                })
                &&& ((!d.4 && old(self).flags.release) ==> {
                    &&& final(self).rec is None
                    &&& rel matches Some(r1) && r1.sid == old(self).rec.unwrap().sid
                        && r1.state == d.2 && r1.buffer@ == Seq::<RecordEntry>::empty()
                })
                &&& ((!d.4 && !old(self).flags.release) ==> {
                    &&& rel is None
                    &&& final(self).rec matches Some(r1) && r1.sid == old(
                        self,
                    ).rec.unwrap().sid && r1.state == d.2 && r1.buffer@ == Seq::<
                        RecordEntry,
                    >::empty()
                })
            }),
    {
        match msg {
            ChannelItem::Frame(f) => {
                match self.rec.take() {
                    Some(mut rec) => {
                        if self.flags.ready {
                            let res = self.send(&f, &mut rec);
                            if matches!(res, SendResult::Stop) {
                                Some(rec)
                            } else {
                                self.rec = Some(rec);
                                None
                            }
                        } else {
                            rec.add(RecordEntry::Frame(f));
                            self.rec = Some(rec);
                            None
                        }
                    },
                    None => None,
                }
            },
            ChannelItem::Ready => {
                let mut rel: Option<Record> = None;
                match self.rec.take() {
                    Some(mut rec) => {
                        let res = self.send_buffered(&mut rec);
                        if matches!(res, SendResult::Stop) {
                            rel = Some(rec);
                        } else {
                            self.rec = Some(rec);
                        }
                    },
                    None => {},
                }
                if self.flags.release {
                    if rel.is_none() {
                        rel = self.rec.take();
                    }
                } else {
                    self.flags.ready = true;
                }
                proof {
                    if old(self).rec is Some {
                        let r0 = old(self).rec.unwrap();
                        lemma_html_drain_rem(
                            entry_views(r0.buffer@),
                            old(self).size as int,
                            old(self).maxsize as int,
                            r0.state,
                        );
                        if rel is Some {
                            lemma_entry_views_len(rel.unwrap().buffer@);
                        }
                        if self.rec is Some {
                            lemma_entry_views_len(self.rec.unwrap().buffer@);
                        }
                    }
                }
                rel
            },
        }
    }

    /// Finishes the acquire handshake with what the registry answered; see
    /// [`Xhr::init_transport`](crate::transports::xhr::Xhr::init_transport)
    /// for the shape. On this streaming wire the replay may stop midway at
    /// the byte cap, leaving the rest of the buffer on the record.
    pub fn init_transport(&mut self, res: Result<Record, SessionError>) -> (rel: Option<Record>)
        requires
            old(self).rec is None,
            !old(self).flags.release,
        ensures
            final(self).flags.ready == old(self).flags.ready,
            final(self).maxsize == old(self).maxsize,
            res matches Ok(rec) ==> ((rec.state == SessionState::New || rec.state
                == SessionState::Running) ==> ({
                let st1 = if rec.state == SessionState::New {
                    SessionState::Running
                } else {
                    rec.state
                };
                let open_units: Seq<Seq<char>> = if rec.state == SessionState::New {
                    seq![html_unit(FrameView::Open)]
                } else {
                    Seq::empty()
                };
                let size1 = if rec.state == SessionState::New {
                    sat_add(sat_add(old(self).size as int, unit_bytes(FrameView::Open)), 25)
                } else {
                    old(self).size as int
                };
                let open_stops = rec.state == SessionState::New && html_stops(
                    FrameView::Open,
                    size1,
                    old(self).maxsize as int,
                );
                let d = html_drain(
                    entry_views(rec.buffer@),
                    size1,
                    old(self).maxsize as int,
                    st1,
                );
                &&& rel is None
                &&& (open_stops ==> {
                    &&& str_views(final(self).out@) == str_views(old(self).out@) + open_units
                    &&& final(self).size as int == size1
                    &&& final(self).flags.release
                    &&& final(self).rec matches Some(r1) && r1.sid == rec.sid && r1.state
                        == st1 && r1.buffer == rec.buffer
                })
                &&& (!open_stops ==> {
                    &&& str_views(final(self).out@) == str_views(old(self).out@) + open_units
                        + d.0
                    &&& final(self).size as int == d.1
                    &&& final(self).flags.release == d.4
                    &&& final(self).rec matches Some(r1) && r1.sid == rec.sid && r1.state
                        == d.2 && entry_views(r1.buffer@) == d.3
                })
            })),
            res matches Ok(rec) ==> ((rec.state == SessionState::Interrupted || rec.state
                == SessionState::Closed) ==> {
                &&& final(self).rec is None
                &&& !final(self).flags.release
                &&& final(self).out@.len() == old(self).out@.len() + 1
                &&& (forall|k: int|
                    0 <= k < old(self).out@.len() ==> final(self).out@[k] == old(self).out@[k])
                &&& final(self).out@.last()@ == html_unit(
                    FrameView::Close(
                        if rec.state == SessionState::Interrupted {
                            CloseCodeView::Interrupted
                        } else {
                            CloseCodeView::GoAway
                        },
                    ),
                )
                &&& rel matches Some(r1) && r1.sid == rec.sid && r1.buffer == rec.buffer
                    && r1.state == SessionState::Closed
            }),
            res matches Err(e) ==> {
                &&& rel is None
                &&& final(self).rec is None
                &&& !final(self).flags.release
                &&& final(self).out@.len() == old(self).out@.len() + 1
                &&& (forall|k: int|
                    0 <= k < old(self).out@.len() ==> final(self).out@[k] == old(self).out@[k])
                &&& final(self).out@.last()@ == script_unit(
                    json_quoted(e.spec_close_code()@.spec_close_body()),
                )
            },
    {
        match res {
            Ok(mut rec) => {
                match rec.state {
                    SessionState::Running => {
                        let r = self.send_buffered(&mut rec);
                        if matches!(r, SendResult::Stop) {
                            self.flags.release = true;
                        }
                        self.rec = Some(rec);
                        proof {
                            assert(str_views(old(self).out@) + Seq::<Seq<char>>::empty()
                                =~= str_views(old(self).out@));
                        }
                        None
                    },
                    SessionState::New => {
                        rec.state = SessionState::Running;
                        let ghost out_mid = self.out@;
                        let r = self.send(&Frame::Open, &mut rec);
                        proof {
                            assert(self.out@ == out_mid.push(self.out@.last()));
                            lemma_str_views_push(out_mid, self.out@.last());
                            assert(str_views(self.out@) =~= str_views(old(self).out@) + seq![
                                html_unit(FrameView::Open),
                            ]);
                        }
                        if matches!(r, SendResult::Stop) {
                            self.flags.release = true;
                        } else {
                            let r2 = self.send_buffered(&mut rec);
                            if matches!(r2, SendResult::Stop) {
                                self.flags.release = true;
                            }
                        }
                        self.rec = Some(rec);
                        None
                    },
                    SessionState::Interrupted => {
                        self.send(&Frame::Close(CloseCode::Interrupted), &mut rec);
                        Some(rec)
                    },
                    SessionState::Closed => {
                        self.send(&Frame::Close(CloseCode::GoAway), &mut rec);
                        Some(rec)
                    },
                }
            },
            Err(e) => {
                self.send_close(e.close_code());
                None
            },
        }
    }

    /// The transport is going away: the record, if held, goes back to the
    /// registry, marked interrupted when the client vanished without a clean
    /// close.
    pub fn stopping(&mut self, connected: bool) -> (rel: Option<Record>)
        ensures
            final(self).rec is None,
            final(self).flags == old(self).flags,
            final(self).out == old(self).out,
            final(self).eof == old(self).eof,
            old(self).rec is None ==> rel is None,
            old(self).rec matches Some(r0) ==> (connected ==> rel == Some(r0)),
            old(self).rec matches Some(r0) ==> (!connected ==> (rel matches Some(r1) && r1.sid
                == r0.sid && r1.buffer == r0.buffer && r1.state == (
            if r0.state == SessionState::Running {
                SessionState::Interrupted
            } else {
                r0.state
            }))),
    {
        match self.rec.take() {
            Some(mut rec) => {
                if !connected {
                    rec.interrupted();
                }
                Some(rec)
            },
            None => None,
        }
    }


    /// Where the transport parks its record between events.
    pub fn session_record(&mut self) -> (r: &mut Option<Record>)
        ensures
            *r == old(self).rec,
            final(self).rec == *final(r),
            final(self).flags == old(self).flags,
            final(self).out == old(self).out,
            final(self).eof == old(self).eof,
            final(self).size == old(self).size,
            final(self).maxsize == old(self).maxsize,
    {
        &mut self.rec
    }

    /// The transport's state bits.
    pub fn flags(&mut self) -> (r: &mut Flags)
        ensures
            *r == old(self).flags,
            final(self).flags == *final(r),
            final(self).rec == old(self).rec,
            final(self).out == old(self).out,
            final(self).eof == old(self).eof,
            final(self).size == old(self).size,
            final(self).maxsize == old(self).maxsize,
    {
        &mut self.flags
    }

    /// A broadcast frame reaches the transport directly: it is written if
    /// the record is here, and dropped otherwise. As in the one-frame send,
    /// the record is kept on the transport either way.
    pub fn handle_broadcast(&mut self, msg: &Frame)
        ensures
            old(self).rec is None ==> *final(self) == *old(self),
            old(self).rec is Some ==> {
                &&& final(self).flags == old(self).flags
                &&& final(self).out@.len() == old(self).out@.len() + 1
                &&& (forall|k: int|
                    0 <= k < old(self).out@.len() ==> final(self).out@[k] == old(self).out@[k])
                &&& final(self).out@.last()@ == html_unit(msg@)
                &&& final(self).rec matches Some(r1) && r1.sid == old(self).rec.unwrap().sid
                    && r1.buffer == old(self).rec.unwrap().buffer && r1.state
                    == state_after_frame(msg@, old(self).rec.unwrap().state)
            },
    {
        match self.rec.take() {
            Some(mut rec) => {
                self.send(msg, &mut rec);
                self.rec = Some(rec);
            },
            None => {},
        }
    }
}

/// Decodes one script block, inverting [`HTMLFile::send`]: every block that
/// `send` writes comes back as the frame body it was written from, as the
/// browser-side callback observes it.
pub fn decode_script_block(unit: &str) -> (r: Option<String>)
    ensures
        forall|body: Seq<char>|
            unit@ == script_unit(json_quoted(body)) ==> (r matches Some(s) && s@ == body),
{
    proof {
        reveal_strlit("<script>\np(");
        reveal_strlit(");\n</script>\r\n");
    }
    let n = unit.unicode_len();
    if n < 25 {
        return None;
    }
    let head = unit.substring_char(0, 11);
    let tail = unit.substring_char(n - 14, n);
    if !str_eq(head, "<script>\np(") || !str_eq(tail, ");\n</script>\r\n") {
        proof {
            assert forall|body: Seq<char>|
                unit@ == script_unit(json_quoted(body)) implies false by {
                assert(head@ =~= "<script>\np("@);
                assert(tail@ =~= ");\n</script>\r\n"@);
            }
        }
        return None;
    }
    let inner = unit.substring_char(11, n - 14);
    proof {
        assert forall|body: Seq<char>|
            unit@ == script_unit(json_quoted(body)) implies inner@ == json_quoted(body) by {
            assert(inner@ =~= json_quoted(body));
        }
    }
    crate::json::json_parse_str(inner)
}

/// The script blocks of a frame sequence, in order.
pub open spec fn html_units_of(fs: Seq<FrameView>) -> Seq<Seq<char>>
    decreases fs.len(),
{
    if fs.len() == 0 {
        Seq::empty()
    } else {
        seq![html_unit(fs[0])] + html_units_of(fs.drop_first())
    }
}

/// A replay writes exactly a prefix of its frames, in order, as their
/// script blocks, and leaves exactly the rest: this wire neither drops,
/// reorders nor invents frames.
pub proof fn lemma_html_drain_shape(fs: Seq<FrameView>, size: int, maxsize: int, st: SessionState)
    ensures
        ({
            let d = html_drain(fs, size, maxsize, st);
            let p = fs.len() - d.3.len();
            &&& 0 <= p <= fs.len()
            &&& d.0 == html_units_of(fs.take(p))
            &&& d.3 == fs.skip(p)
        }),
    decreases fs.len(),
{
    let d = html_drain(fs, size, maxsize, st);
    if fs.len() > 0 {
        let f = fs[0];
        let size1 = sat_add(sat_add(size, unit_bytes(f)), 25);
        let st1 = state_after_frame(f, st);
        if html_stops(f, size1, maxsize) {
            assert(d.3 =~= fs.skip(1));
            let first = fs.take(1);
            assert(first[0] == f);
            assert(first.drop_first() =~= Seq::<FrameView>::empty());
            assert(html_units_of(first.drop_first()) =~= Seq::<Seq<char>>::empty());
            assert(html_units_of(first) =~= seq![html_unit(f)]);
            assert(d.0 =~= html_units_of(first));
        } else {
            let tail = fs.drop_first();
            lemma_html_drain_shape(tail, size1, maxsize, st1);
            let rest = html_drain(tail, size1, maxsize, st1);
            let p1 = tail.len() - rest.3.len();
            let p = fs.len() - d.3.len();
            assert(p == p1 + 1);
            assert(fs.take(p).drop_first() =~= tail.take(p1));
            assert(fs.take(p)[0] == f);
            assert(d.0 =~= html_units_of(fs.take(p)));
            assert(d.3 =~= fs.skip(p));
        }
    }
}

/// A replay that was not stopped has written everything.
proof fn lemma_html_drain_rem(fs: Seq<FrameView>, size: int, maxsize: int, st: SessionState)
    ensures
        !html_drain(fs, size, maxsize, st).4 ==> html_drain(fs, size, maxsize, st).3 == Seq::<
            FrameView,
        >::empty(),
    decreases fs.len(),
{
    if fs.len() > 0 {
        let f = fs[0];
        let size1 = sat_add(sat_add(size, unit_bytes(f)), 25);
        let st1 = state_after_frame(f, st);
        if !html_stops(f, size1, maxsize) {
            lemma_html_drain_rem(fs.drop_first(), size1, maxsize, st1);
        }
    }
}

/// The views of a buffer suffix are the suffix of the views.
proof fn lemma_entry_views_suffix(s: Seq<RecordEntry>, k: int)
    requires
        0 <= k <= s.len(),
    ensures
        entry_views(s.subrange(k, s.len() as int)) =~= entry_views(s).subrange(
            k,
            s.len() as int,
        ),
{
    lemma_entry_views_len(s);
    let tail = s.subrange(k, s.len() as int);
    lemma_entry_views_len(tail);
    assert forall|j: int| 0 <= j < tail.len() implies entry_views(tail)[j] == entry_views(
        s,
    ).subrange(k, s.len() as int)[j] by {
        lemma_entry_views_index(tail, j);
        lemma_entry_views_index(s, k + j);
    }
}

} // verus!
