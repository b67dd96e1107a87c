//! The per-session context: what user session code talks to. It queues
//! outbound frames; the hosting glue drains the queue to whichever transport
//! is attached, or parks the frames on the record.

use vstd::prelude::*;

use crate::manager::Broadcast;
use crate::protocol::{CloseCode, Frame, FrameView};

verus! {

/// The outbound side of one session, owned by the user session handler.
pub struct SockJSContext {
    /// Session id.
    pub sid: String,
    /// Outbound frames in the order user code produced them.
    pub pending: Vec<Frame>,
    /// A close was requested; terminal.
    pub closed: bool,
}

impl SockJSContext {
    pub fn new(sid: String) -> (r: SockJSContext)
        ensures
            r.sid == sid,
            r.pending@ == Seq::<Frame>::empty(),
            !r.closed,
    {
        SockJSContext { sid, pending: Vec::new(), closed: false }
    }

    /// Queues one text payload. After a close the payload is dropped with no
    /// error: no further message frames leave this session.
    pub fn send(&mut self, msg: &str)
        ensures
            final(self).sid == old(self).sid,
            final(self).closed == old(self).closed,
            old(self).closed ==> final(self).pending@ == old(self).pending@,
            !old(self).closed ==> {
                &&& final(self).pending@.len() == old(self).pending@.len() + 1
                &&& forall|k: int|
                    0 <= k < old(self).pending@.len() ==> final(self).pending@[k] == old(
                        self,
                    ).pending@[k]
                &&& final(self).pending@.last()@ == FrameView::Message(msg@)
            },
    {
        if !self.closed {
            self.pending.push(Frame::Message(msg.to_owned()));
        }
    }

    /// Queues one binary payload; only the websocket wire can carry it.
    /// Dropped after a close, like [`Self::send`].
    pub fn send_blob(&mut self, data: Vec<u8>)
        ensures
            final(self).sid == old(self).sid,
            final(self).closed == old(self).closed,
            old(self).closed ==> final(self).pending@ == old(self).pending@,
            !old(self).closed ==> {
                &&& final(self).pending@.len() == old(self).pending@.len() + 1
                &&& forall|k: int|
                    0 <= k < old(self).pending@.len() ==> final(self).pending@[k] == old(
                        self,
                    ).pending@[k]
                &&& final(self).pending@.last()@ == FrameView::MessageBlob(data@)
            },
    {
        if !self.closed {
            self.pending.push(Frame::MessageBlob(data));
        }
    }

    /// Requests a close: exactly one close frame is queued, the first time.
    /// Further calls change nothing.
    pub fn close(&mut self, code: CloseCode)
        ensures
            final(self).sid == old(self).sid,
            final(self).closed,
            old(self).closed ==> final(self).pending@ == old(self).pending@,
            !old(self).closed ==> {
                &&& final(self).pending@.len() == old(self).pending@.len() + 1
                &&& forall|k: int|
                    0 <= k < old(self).pending@.len() ==> final(self).pending@[k] == old(
                        self,
                    ).pending@[k]
                &&& final(self).pending@.last()@ == FrameView::Close(code@)
            },
    {
        if !self.closed {
            self.pending.push(Frame::Close(code));
            self.closed = true;
        }
    }

    /// Wraps one text payload for registry fan-out to every session.
    pub fn broadcast(&self, msg: &str) -> (r: Broadcast)
        ensures
            r.msg@ == FrameView::Message(msg@),
    {
        Broadcast::new(Frame::Message(msg.to_owned()))
    }

    /// Hands the queued frames, in order, to the glue that feeds the
    /// attached transport or the parked record.
    pub fn drain(&mut self) -> (out: Vec<Frame>)
        ensures
            final(self).sid == old(self).sid,
            final(self).closed == old(self).closed,
            out@ == old(self).pending@,
            final(self).pending@ == Seq::<Frame>::empty(),
    {
        let mut out: Vec<Frame> = Vec::new();
        core::mem::swap(&mut self.pending, &mut out);
        out
    }
}

} // verus!
