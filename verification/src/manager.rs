//! The session registry: one row per session id, arbitration of which
//! transport owns a session, buffering while parked, idle expiry and
//! broadcast fan-out.
//!
//! Every handler is a pure state transition; the events it would push into a
//! session context's channel are returned to the caller, which owns the
//! actual channels and timers.

use vstd::prelude::*;

use crate::protocol::{CloseReason, Frame, FrameView, Message, SessionError, SessionState,
    SockJSChannel};

verus! {

/// A buffered server-to-client frame: owned by the session, or one copy of a
/// broadcast frame shared with every other session.
#[derive(Debug)]
pub enum RecordEntry {
    Frame(Frame),
    Shared(Frame),
}

impl View for RecordEntry {
    type V = FrameView;

    open spec fn view(&self) -> FrameView {
        match self {
            RecordEntry::Frame(f) => f@,
            RecordEntry::Shared(f) => f@,
        }
    }
}

impl RecordEntry {
    pub fn as_ref(&self) -> (f: &Frame)
        ensures
            f@ == self@,
    {
        match self {
            RecordEntry::Frame(f) => f,
            RecordEntry::Shared(f) => f,
        }
    }
}

/// The parked form of a session: what the registry keeps while no transport
/// is attached, and what an attached transport owns exclusively.
#[derive(Debug)]
pub struct Record {
    /// Session id.
    pub sid: String,
    /// Session state.
    pub state: SessionState,
    /// Frames queued while no transport is attached or before it is ready.
    pub buffer: Vec<RecordEntry>,
}

impl Record {
    fn new(id: String) -> (r: Record)
        ensures
            r.sid == id,
            r.state == SessionState::New,
            r.buffer@.len() == 0,
    {
        Record { sid: id, state: SessionState::New, buffer: Vec::new() }
    }

    /// Marks the session closed; terminal.
    pub fn close(&mut self)
        ensures
            final(self).state == SessionState::Closed,
            final(self).sid == old(self).sid,
            final(self).buffer == old(self).buffer,
    {
        self.state = SessionState::Closed;
    }

    /// Marks a running session interrupted; any other state is kept.
    pub fn interrupted(&mut self)
        ensures
            final(self).state == if old(self).state == SessionState::Running {
                SessionState::Interrupted
            } else {
                old(self).state
            },
            final(self).sid == old(self).sid,
            final(self).buffer == old(self).buffer,
    {
        if self.state == SessionState::Running {
            self.state = SessionState::Interrupted;
        }
    }

    /// Appends a frame to the buffer, keeping order.
    pub fn add(&mut self, frm: RecordEntry)
        ensures
            final(self).buffer@ == old(self).buffer@.push(frm),
            final(self).sid == old(self).sid,
            final(self).state == old(self).state,
    {
        self.buffer.push(frm);
    }
}

/// Request that a transport attach to the session `sid`; `addr` is the
/// caller's handle for broadcast delivery.
pub struct Acquire {
    pub sid: String,
    pub addr: u32,
}

impl Acquire {
    pub fn new(sid: String, addr: u32) -> (r: Self)
        ensures
            r.sid == sid,
            r.addr == addr,
    {
        Acquire { sid, addr }
    }
}

/// A transport hands its record back to the registry.
pub struct Release {
    pub ses: Record,
}

/// An inbound client message for the session `sid`.
#[derive(Debug)]
pub struct SessionMessage {
    pub sid: String,
    pub msg: Message,
}

/// A frame to fan out to every session.
#[derive(Debug)]
pub struct Broadcast {
    pub msg: Frame,
}

impl Broadcast {
    pub fn new(frm: Frame) -> (r: Broadcast)
        ensures
            r.msg == frm,
    {
        Broadcast { msg: frm }
    }
}

impl Clone for Broadcast {
    /// A clone carries the same abstract frame.
    fn clone(&self) -> (r: Broadcast)
        ensures
            r.msg@ == self.msg@,
    {
        Broadcast { msg: self.msg.clone() }
    }
}

/// One registry row. `record` is `Some` exactly while no transport is
/// attached; `transport` holds the attached transport's broadcast handle.
pub struct Entry {
    pub sid: String,
    pub record: Option<Record>,
    pub transport: Option<u32>,
    pub tick: u64,
    pub idle: bool,
}

/// The idle window in the caller's clock units (seconds): a parked session
/// whose last tick is further in the past is reaped by the sweeper.
pub const IDLE_TIMEOUT: u64 = 10;

/// What a session registry is; kept as the bound that hosting code names.
pub trait SessionManager {

}

/// The session registry.
pub struct SockJSManager {
    pub entries: Vec<Entry>,
}

impl SessionManager for SockJSManager {

}

impl Default for SockJSManager {
    fn default() -> (r: SockJSManager)
        ensures
            r.entries@.len() == 0,
            r.wf(),
    {
        SockJSManager { entries: Vec::new() }
    }
}

impl SockJSManager {
    /// Registry well-formedness: session ids are unique; a row is parked
    /// (holds the record) exactly when no transport is attached, so at most
    /// one transport owns a session at any instant; only parked rows idle;
    /// a parked record carries its own row's sid.
    pub open spec fn wf(self) -> bool {
        rows_wf(self.entries@)
    }

    /// There is a row for `sid`.
    pub open spec fn has(self, sid: Seq<char>) -> bool {
        exists|i: int| 0 <= i < self.entries@.len() && #[trigger] self.entries@[i].sid@ == sid
    }

    /// The index of the row for `sid`.
    pub open spec fn idx(self, sid: Seq<char>) -> int {
        choose|i: int| 0 <= i < self.entries@.len() && #[trigger] self.entries@[i].sid@ == sid
    }

    /// The row for `sid`.
    pub open spec fn entry(self, sid: Seq<char>) -> Entry {
        self.entries@[self.idx(sid)]
    }

    /// A transport is attached to the session `sid`.
    pub open spec fn attached(self, sid: Seq<char>) -> bool {
        self.has(sid) && self.entry(sid).transport is Some
    }

    /// With unique sids, the row that holds `sid` is the row `idx` picks.
    pub proof fn lemma_idx(self, sid: Seq<char>, i: int)
        requires
            self.wf(),
            0 <= i < self.entries@.len(),
            self.entries@[i].sid@ == sid,
        ensures
            self.has(sid),
            self.idx(sid) == i,
            self.entry(sid) == self.entries@[i],
    {
        assert(self.has(sid));
        let j = self.idx(sid);
        assert(0 <= j < self.entries@.len() && self.entries@[j].sid@ == sid);
        if j < i {
            assert(self.entries@[j].sid@ != self.entries@[i].sid@);
        } else if i < j {
            assert(self.entries@[i].sid@ != self.entries@[j].sid@);
        }
    }

    /// Finds the row index for `sid`.
    fn find(&self, sid: &String) -> (r: Option<usize>)
        ensures
            match r {
                Some(i) => {
                    &&& i < self.entries@.len()
                    &&& self.entries@[i as int].sid@ == sid@
                    &&& self.has(sid@)
                    &&& self.wf() ==> self.idx(sid@) == i as int
                },
                None => !self.has(sid@),
            },
    {
        let mut i: usize = 0;
        while i < self.entries.len()
            invariant
                i <= self.entries@.len(),
                forall|j: int| 0 <= j < i ==> self.entries@[j].sid@ != sid@,
            decreases self.entries@.len() - i,
        {
            if self.entries[i].sid.eq(sid) {
                proof {
                    if self.wf() {
                        self.lemma_idx(sid@, i as int);
                    }
                }
                return Some(i);
            }
            i = i + 1;
        }
        None
    }

    /// A transport asks for the session `msg.sid`.
    ///
    /// An unknown sid gets a fresh row and a fresh `New` record, and its
    /// context is told `Opened` then `Acquired`. A parked session hands its
    /// record out and its context is told `Acquired`. A session that another
    /// transport owns refuses the call with `SessionError::Acquired` and
    /// nothing changes.
    pub fn handle_acquire(&mut self, msg: Acquire, now: u64) -> (r: Result<
        (Record, Vec<SockJSChannel>),
        SessionError,
    >)
        requires
            old(self).wf(),
        ensures
            final(self).wf(),
            old(self).attached(msg.sid@) ==> {
                &&& r matches Err(e) && e == SessionError::Acquired
                &&& final(self).entries@ == old(self).entries@
            },
            old(self).has(msg.sid@) && !old(self).attached(msg.sid@) ==> {
                &&& r matches Ok(p)
                &&& p.0 == old(self).entry(msg.sid@).record.unwrap()
                &&& p.1@ == seq![SockJSChannel::Acquired]
                &&& final(self).entries@ == old(self).entries@.update(
                    old(self).idx(msg.sid@),
                    (Entry {
                        sid: old(self).entry(msg.sid@).sid,
                        record: None,
                        transport: Some(msg.addr),
                        tick: old(self).entry(msg.sid@).tick,
                        idle: false,
                    }),
                )
            },
            !old(self).has(msg.sid@) ==> {
                &&& r matches Ok(p)
                &&& p.0.sid == msg.sid
                &&& p.0.state == SessionState::New
                &&& p.0.buffer@.len() == 0
                &&& p.1@ == seq![SockJSChannel::Opened, SockJSChannel::Acquired]
                &&& final(self).entries@ == old(self).entries@.push(
                    (Entry {
                        sid: msg.sid,
                        record: None,
                        transport: Some(msg.addr),
                        tick: now,
                        idle: false,
                    }),
                )
            },
    {
        let Acquire { sid, addr } = msg;
        match self.find(&sid) {
            Some(i) => {
                if self.entries[i].record.is_some() {
                    let rec_opt = self.entries[i].record.take();
                    self.entries[i].idle = false;
                    self.entries[i].transport = Some(addr);
                    let mut evs: Vec<SockJSChannel> = Vec::new();
                    evs.push(SockJSChannel::Acquired);
                    proof {
                        assert(evs@ =~= seq![SockJSChannel::Acquired]);
                        assert(self.entries@ =~= old(self).entries@.update(
                            old(self).idx(sid@),
                            (Entry {
                                sid: old(self).entry(sid@).sid,
                                record: None,
                                transport: Some(addr),
                                tick: old(self).entry(sid@).tick,
                                idle: false,
                            }),
                        ));
                    }
                    match rec_opt {
                        Some(rec) => Ok((rec, evs)),
                        None => Err(SessionError::Internal),
                    }
                } else {
                    Err(SessionError::Acquired)
                }
            },
            None => {
                let rec = Record::new(sid.clone());
                self.entries.push(Entry {
                    sid,
                    record: None,
                    transport: Some(addr),
                    tick: now,
                    idle: false,
                });
                let mut evs: Vec<SockJSChannel> = Vec::new();
                evs.push(SockJSChannel::Opened);
                evs.push(SockJSChannel::Acquired);
                proof {
                    assert(evs@ =~= seq![SockJSChannel::Opened, SockJSChannel::Acquired]);
                }
                Ok((rec, evs))
            },
        }
    }

    /// A transport hands the record back; the row parks it and starts
    /// idling. The context is told `Closed(Normal)` for a closed record,
    /// `Closed(Interrupted)` for an interrupted one, else `Released`. A row
    /// that already expired drops the record silently.
    pub fn handle_release(&mut self, msg: Release, now: u64) -> (evs: Vec<SockJSChannel>)
        requires
            old(self).wf(),
        ensures
            final(self).wf(),
            !old(self).has(msg.ses.sid@) ==> {
                &&& evs@ == Seq::<SockJSChannel>::empty()
                &&& final(self).entries@ == old(self).entries@
            },
            old(self).has(msg.ses.sid@) ==> {
                &&& evs@ == seq![release_event(msg.ses.state)]
                &&& final(self).entries@ == old(self).entries@.update(
                    old(self).idx(msg.ses.sid@),
                    (Entry {
                        sid: old(self).entry(msg.ses.sid@).sid,
                        record: Some(msg.ses),
                        transport: None,
                        tick: now,
                        idle: true,
                    }),
                )
            },
    {
        match self.find(&msg.ses.sid) {
            None => Vec::new(),
            Some(i) => {
                let ev = match msg.ses.state {
                    SessionState::Closed => SockJSChannel::Closed(CloseReason::Normal),
                    SessionState::Interrupted => SockJSChannel::Closed(CloseReason::Interrupted),
                    _ => SockJSChannel::Released,
                };
                self.entries[i].idle = true;
                self.entries[i].tick = now;
                self.entries[i].transport = None;
                self.entries[i].record = Some(msg.ses);
                let mut evs: Vec<SockJSChannel> = Vec::new();
                evs.push(ev);
                proof {
                    assert(evs@ =~= seq![release_event(msg.ses.state)]);
                    assert(self.entries@ =~= old(self).entries@.update(
                        old(self).idx(msg.ses.sid@),
                        (Entry {
                            sid: old(self).entry(msg.ses.sid@).sid,
                            record: Some(msg.ses),
                            transport: None,
                            tick: now,
                            idle: true,
                        }),
                    ));
                }
                evs
            },
        }
    }

    /// Routes an inbound client message: the caller delivers the returned
    /// message to the user session handler of `msg.sid`. Fails exactly when
    /// the sid is unknown.
    pub fn handle_session_message(&mut self, msg: SessionMessage) -> (r: Result<Message, ()>)
        requires
            old(self).wf(),
        ensures
            final(self).wf(),
            final(self).entries@ == old(self).entries@,
            r is Ok <==> old(self).has(msg.sid@),
            r matches Ok(m) ==> m == msg.msg,
    {
        match self.find(&msg.sid) {
            Some(_) => Ok(msg.msg),
            None => Err(()),
        }
    }
}

impl SockJSManager {
    /// Fans one frame out: the handle of every attached transport is
    /// returned for best-effort delivery, in row order; every parked record
    /// gets one shared copy appended to its buffer for the next replay.
    pub fn handle_broadcast(&mut self, msg: &Broadcast) -> (dest: Vec<u32>)
        requires
            old(self).wf(),
        ensures
            final(self).wf(),
            final(self).entries@.len() == old(self).entries@.len(),
            dest@ == attached_addrs(old(self).entries@),
            forall|i: int|
                0 <= i < old(self).entries@.len() ==> broadcast_row(
                    old(self).entries@[i],
                    final(self).entries@[i],
                    msg.msg@,
                ),
    {
        let ghost n = self.entries@.len() as int;
        let mut dest: Vec<u32> = Vec::new();
        let mut i: usize = 0;
        while i < self.entries.len()
            invariant
                i <= n,
                self.entries@.len() == n == old(self).entries@.len(),
                forall|j: int| i <= j < n ==> self.entries@[j] == old(self).entries@[j],
                forall|j: int|
                    0 <= j < i ==> broadcast_row(
                        old(self).entries@[j],
                        self.entries@[j],
                        msg.msg@,
                    ),
                dest@ == attached_addrs(old(self).entries@.subrange(0, i as int)),
            decreases n - i,
        {
            let ghost prefix = old(self).entries@.subrange(0, i as int);
            let ghost e0 = self.entries@[i as int];
            match self.entries[i].transport {
                Some(a) => {
                    dest.push(a);
                },
                None => {
                    match &mut self.entries[i].record {
                        Some(rec) => {
                            rec.add(RecordEntry::Shared(msg.msg.clone()));
                        },
                        None => {},
                    }
                },
            }
            proof {
                assert(self.entries@[i as int].sid == e0.sid);
                assert(self.entries@[i as int].transport == e0.transport);
                assert(broadcast_row(e0, self.entries@[i as int], msg.msg@));
            }
            i = i + 1;
            proof {
                let prefix1 = old(self).entries@.subrange(0, i as int);
                assert(prefix1.drop_last() =~= prefix);
                assert(prefix1.last() == old(self).entries@[i - 1]);
            }
        }
        proof {
            assert(old(self).entries@.subrange(0, n) =~= old(self).entries@);
        }
        dest
    }

    /// The idle sweeper: reaps every idling row whose last tick is more than
    /// `IDLE_TIMEOUT` before `now`, dropping its parked record, and returns
    /// the reaped sids in row order; the caller tells each of those contexts
    /// `Closed(Expired)`. The surviving rows keep their order.
    pub fn hb(&mut self, now: u64) -> (gone: Vec<String>)
        requires
            old(self).wf(),
        ensures
            final(self).wf(),
            final(self).entries@ == live_rows(old(self).entries@, now),
            gone.deep_view() == expired_sids_of(old(self).entries@, now),
    {
        let ghost n = self.entries@.len() as int;
        let mut gone: Vec<String> = Vec::new();
        let mut i: usize = 0;
        let ghost k: int = 0;
        while i < self.entries.len()
            invariant
                0 <= k <= n,
                i as int == live_rows(old(self).entries@.subrange(0, k), now).len(),
                i <= self.entries@.len(),
                n == old(self).entries@.len(),
                self.entries@ =~= live_rows(old(self).entries@.subrange(0, k), now)
                    + old(self).entries@.subrange(k, n),
                gone.deep_view() =~= expired_sids_of(old(self).entries@.subrange(0, k), now),
                old(self).wf(),
            decreases n - k,
        {
            let ghost prefix = old(self).entries@.subrange(0, k);
            let ghost prefix1 = old(self).entries@.subrange(0, k + 1);
            proof {
                assert(prefix1.drop_last() =~= prefix);
                assert(prefix1.last() == old(self).entries@[k]);
                assert(self.entries@[i as int] == old(self).entries@[k]);
                lemma_live_rows_len(prefix, now);
            }
            let idle = self.entries[i].idle;
            let tick = self.entries[i].tick;
            if idle && now > tick && now - tick > IDLE_TIMEOUT {
                let e = self.entries.remove(i);
                gone.push(e.sid);
                proof {
                    assert(self.entries@ =~= live_rows(prefix1, now) + old(
                        self,
                    ).entries@.subrange(k + 1, n));
                    assert(gone.deep_view() =~= expired_sids_of(prefix1, now));
                }
            } else {
                i = i + 1;
                proof {
                    assert(self.entries@ =~= live_rows(prefix1, now) + old(
                        self,
                    ).entries@.subrange(k + 1, n));
                }
            }
            proof {
                k = k + 1;
            }
        }
        proof {
            assert(old(self).entries@.subrange(0, k) =~= old(self).entries@);
            assert(old(self).entries@.subrange(k, n) =~= Seq::<Entry>::empty());
            assert(self.entries@ =~= live_rows(old(self).entries@, now));
            lemma_live_rows_wf(old(self).entries@, now);
        }
        gone
    }
}

/// Well-formedness of a sequence of registry rows; see
/// [`SockJSManager::wf`].
pub open spec fn rows_wf(s: Seq<Entry>) -> bool {
    &&& forall|i: int, j: int| 0 <= i < j < s.len() ==> s[i].sid@ != s[j].sid@
    &&& forall|i: int|
        0 <= i < s.len() ==> (#[trigger] s[i].record is Some <==> s[i].transport is None)
    &&& forall|i: int| 0 <= i < s.len() ==> (#[trigger] s[i].idle ==> s[i].record is Some)
    &&& forall|i: int|
        0 <= i < s.len() ==> (#[trigger] s[i].record is Some ==> s[i].record.unwrap().sid@
            == s[i].sid@)
}

/// The broadcast handles of the attached rows, in row order.
pub open spec fn attached_addrs(s: Seq<Entry>) -> Seq<u32>
    decreases s.len(),
{
    if s.len() == 0 {
        Seq::empty()
    } else {
        let rest = attached_addrs(s.drop_last());
        if s.last().transport is Some {
            rest.push(s.last().transport.unwrap())
        } else {
            rest
        }
    }
}

/// How one registry row changes under a broadcast of the frame `f`: an
/// attached row is untouched (the frame goes to its transport), a parked row
/// gets exactly one shared copy of `f` at the back of its buffer.
pub open spec fn broadcast_row(e0: Entry, e1: Entry, f: FrameView) -> bool {
    &&& e1.sid == e0.sid
    &&& e1.transport == e0.transport
    &&& e1.tick == e0.tick
    &&& e1.idle == e0.idle
    &&& e0.transport is Some ==> e1.record == e0.record
    &&& e0.transport is None && e0.record is None ==> e1.record is None
    &&& e0.transport is None && e0.record is Some ==> {
        let r0 = e0.record.unwrap();
        let r1 = e1.record.unwrap();
        &&& e1.record is Some
        &&& r1.sid == r0.sid
        &&& r1.state == r0.state
        &&& r1.buffer@.len() == r0.buffer@.len() + 1
        &&& forall|k: int| 0 <= k < r0.buffer@.len() ==> r1.buffer@[k] == r0.buffer@[k]
        &&& r1.buffer@.last() matches RecordEntry::Shared(g) && g@ == f
    }
}

/// Whether the sweeper reaps the row at time `now`.
pub open spec fn expired(e: Entry, now: u64) -> bool {
    e.idle && e.tick < now && now - e.tick > IDLE_TIMEOUT
}

/// The rows the sweeper keeps, in order.
pub open spec fn live_rows(s: Seq<Entry>, now: u64) -> Seq<Entry>
    decreases s.len(),
{
    if s.len() == 0 {
        Seq::empty()
    } else {
        let rest = live_rows(s.drop_last(), now);
        if expired(s.last(), now) {
            rest
        } else {
            rest.push(s.last())
        }
    }
}

/// The sids the sweeper reaps, in order.
pub open spec fn expired_sids_of(s: Seq<Entry>, now: u64) -> Seq<Seq<char>>
    decreases s.len(),
{
    if s.len() == 0 {
        Seq::empty()
    } else {
        let rest = expired_sids_of(s.drop_last(), now);
        if expired(s.last(), now) {
            rest.push(s.last().sid@)
        } else {
            rest
        }
    }
}

/// Every surviving row is one of the old rows.
proof fn lemma_live_rows_member(s: Seq<Entry>, now: u64, a: int)
    requires
        0 <= a < live_rows(s, now).len(),
    ensures
        exists|j: int| 0 <= j < s.len() && live_rows(s, now)[a] == s[j],
    decreases s.len(),
{
    let live = live_rows(s, now);
    if s.len() > 0 {
        let rest = live_rows(s.drop_last(), now);
        if a < rest.len() {
            lemma_live_rows_member(s.drop_last(), now, a);
            let j = choose|j: int|
                0 <= j < s.drop_last().len() && live_rows(s.drop_last(), now)[a] == s.drop_last()[j];
            assert(live[a] == s[j]);
        } else {
            assert(live[a] == s[s.len() - 1]);
        }
    }
}

proof fn lemma_live_rows_len(s: Seq<Entry>, now: u64)
    ensures
        live_rows(s, now).len() <= s.len(),
    decreases s.len(),
{
    if s.len() > 0 {
        lemma_live_rows_len(s.drop_last(), now);
    }
}

/// Sweeping well-formed rows leaves well-formed rows.
proof fn lemma_live_rows_wf(s: Seq<Entry>, now: u64)
    requires
        rows_wf(s),
    ensures
        rows_wf(live_rows(s, now)),
    decreases s.len(),
{
    if s.len() > 0 {
        let butlast = s.drop_last();
        assert(forall|i: int| 0 <= i < butlast.len() ==> butlast[i] == s[i]);
        assert(rows_wf(butlast));
        lemma_live_rows_wf(butlast, now);
        let rest = live_rows(butlast, now);
        if !expired(s.last(), now) {
            let live = rest.push(s.last());
            assert forall|a: int| 0 <= a < rest.len() implies rest[a].sid@ != s.last().sid@ by {
                lemma_live_rows_member(butlast, now, a);
                let j = choose|j: int| 0 <= j < butlast.len() && rest[a] == butlast[j];
                assert(s[j].sid@ != s[s.len() - 1].sid@);
            }
            assert(forall|a: int| 0 <= a < rest.len() ==> live[a] == rest[a]);
            assert(live.last() == s.last());
            assert(rows_wf(live));
        }
    }
}

/// The event a released record's context is told.
pub open spec fn release_event(state: SessionState) -> SockJSChannel {
    match state {
        SessionState::Closed => SockJSChannel::Closed(CloseReason::Normal),
        SessionState::Interrupted => SockJSChannel::Closed(CloseReason::Interrupted),
        _ => SockJSChannel::Released,
    }
}

} // verus!
