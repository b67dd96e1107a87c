//! The transport adaptors: per-wire encoders sharing one acquire/release
//! state machine, plus the wire forms common to the HTTP transports.

pub mod eventsource;
pub mod htmlfile;
pub mod jsonp;
pub mod rawwebsocket;
pub mod websocket;
pub mod xhr;
pub mod xhrstreaming;

use vstd::prelude::*;
use vstd::string::StringExecFns;

use crate::json::{json_encode_str, json_msgs, json_quoted};
use crate::manager::RecordEntry;
use crate::protocol::{CloseCode, CloseCodeView, Frame, FrameView, SessionState};

verus! {

/// Whether the transport can take more frames on this response.
#[derive(Clone, Copy, PartialEq, Eq, Structural, Debug)]
pub enum SendResult {
    Continue,
    Stop,
}

/// Transport-local state bits. `ready` means the initial handshake and
/// buffered replay are done, so live frames are forwarded at once; `release`
/// means the response stopped during acquire or replay, so the record goes
/// back as soon as the post-acquire continuation runs.
#[derive(Clone, Copy, PartialEq, Eq, Structural, Debug)]
pub struct Flags {
    pub ready: bool,
    pub release: bool,
}

impl Flags {
    pub fn empty() -> (r: Flags)
        ensures
            !r.ready,
            !r.release,
    {
        Flags { ready: false, release: false }
    }
}

/// One step of a transport's inbound channel: a live outbound frame, or the
/// signal that the handshake is done.
#[derive(Debug)]
pub enum ChannelItem {
    Frame(Frame),
    Ready,
}

/// The HTTP methods the transport entry points tell apart.
#[derive(Clone, Copy, PartialEq, Eq, Structural, Debug)]
pub enum HttpMethod {
    Get,
    Post,
    Options,
    Other,
}

/// The SockJS frame body shared by the HTTP wires: `o`, `h`, `a[...]` or
/// `c[<num>,"<reason>"]`, without a line terminator. A binary payload has no
/// form on these wires; it is reported as an internal-error close.
pub open spec fn frame_body(f: FrameView) -> Seq<char> {
    match f {
        FrameView::Open => "o"@,
        FrameView::Heartbeat => "h"@,
        FrameView::Message(m) => "a["@ + json_quoted(m) + "]"@,
        FrameView::MessageVec(v) => "a"@ + v,
        FrameView::MessageBlob(_) => CloseCodeView::InternalError.spec_close_body(),
        FrameView::Close(c) => c.spec_close_body(),
    }
}

/// How one frame leaves a record that an HTTP wire writes it for: a close
/// frame closes it, a binary payload is turned into an internal-error close
/// and closes it too, anything else leaves the state alone.
pub open spec fn state_after_frame(f: FrameView, st: SessionState) -> SessionState {
    if f is Close || f is MessageBlob {
        SessionState::Closed
    } else {
        st
    }
}

/// Renders one frame in the shared HTTP wire form.
pub fn frame_body_str(msg: &Frame) -> (r: String)
    ensures
        r@ == frame_body(msg@),
{
    match msg {
        Frame::Open => "o".to_owned(),
        Frame::Heartbeat => "h".to_owned(),
        Frame::Message(s) => {
            let mut r = "a[".to_owned();
            let q = json_encode_str(s.as_str());
            r.append(q.as_str());
            r.append("]");
            r
        },
        Frame::MessageVec(v) => {
            let mut r = "a".to_owned();
            r.append(v.as_str());
            r
        },
        Frame::MessageBlob(_) => CloseCode::InternalError.close_body(),
        Frame::Close(c) => c.close_body(),
    }
}

/// The views of buffered record entries, in order.
pub open spec fn entry_views(s: Seq<RecordEntry>) -> Seq<FrameView>
    decreases s.len(),
{
    if s.len() == 0 {
        Seq::empty()
    } else {
        entry_views(s.drop_last()).push(s.last()@)
    }
}

/// `entry_views` keeps length.
pub proof fn lemma_entry_views_len(s: Seq<RecordEntry>)
    ensures
        entry_views(s).len() == s.len(),
    decreases s.len(),
{
    if s.len() > 0 {
        lemma_entry_views_len(s.drop_last());
    }
}

/// `entry_views` maps indexwise.
pub proof fn lemma_entry_views_index(s: Seq<RecordEntry>, i: int)
    requires
        0 <= i < s.len(),
    ensures
        entry_views(s).len() == s.len(),
        entry_views(s)[i] == s[i]@,
    decreases s.len(),
{
    lemma_entry_views_len(s);
    if i < s.len() - 1 {
        lemma_entry_views_index(s.drop_last(), i);
    }
}

/// The views of the chunks written so far, in order.
pub open spec fn str_views(s: Seq<String>) -> Seq<Seq<char>>
    decreases s.len(),
{
    if s.len() == 0 {
        Seq::empty()
    } else {
        str_views(s.drop_last()).push(s.last()@)
    }
}

/// `str_views` distributes over push.
pub proof fn lemma_str_views_push(s: Seq<String>, u: String)
    ensures
        str_views(s.push(u)) == str_views(s).push(u@),
{
    assert(s.push(u).drop_last() =~= s);
    assert(s.push(u).last() == u);
}

/// The inbound path of the send companion endpoints (`xhr_send`,
/// `jsonp_send`): the body must be a JSON array of strings, and its elements
/// become one session message each, in order. Anything else is refused; the
/// caller answers `400 Bad Request` with [`payload_error_body`]. A body
/// holding one JSON-quoted payload in brackets parses back to exactly that
/// payload.
pub fn parse_send_body(body: &str) -> (r: Result<Vec<String>, ()>)
    ensures
        r is Ok <==> json_msgs(body@) is Some,
        r matches Ok(v) ==> v.deep_view() == json_msgs(body@).unwrap(),
        forall|m: Seq<char>|
            body@ == seq!['['] + json_quoted(m) + seq![']'] ==> (r matches Ok(v)
                && v.deep_view() == seq![m]),
{
    match crate::json::json_parse_msgs(body) {
        Some(v) => Ok(v),
        None => Err(()),
    }
}

/// The `400` body for a refused send payload.
pub fn payload_error_body() -> (r: &'static str)
    ensures
        r@ == "Payload expected."@,
{
    "Payload expected."
}

/// String equality by content.
pub fn str_eq(a: &str, b: &str) -> (r: bool)
    ensures
        r == (a@ == b@),
{
    let x = a.to_owned();
    let y = b.to_owned();
    x.eq(&y)
}

} // verus!
