//! Frames, close codes and session states: the abstract protocol that the
//! registry and the transports exchange.

use vstd::prelude::*;
use vstd::string::StringExecFns;

verus! {

/// Close codes: the named set with fixed numeric code and reason, plus
/// user-provided code/reason pairs handed to `close`.
#[derive(Debug)]
pub enum CloseCode {
    /// Normal close requested by the server.
    Normal,
    /// The session is gone; the client should not reconnect to it.
    GoAway,
    /// Another transport already owns the session.
    Acquired,
    /// The previous transport dropped without a clean close.
    Interrupted,
    /// Internal failure.
    InternalError,
    /// A user-provided numeric code and reason.
    Other(u16, String),
}

/// The mathematical value of a [`CloseCode`].
pub enum CloseCodeView {
    Normal,
    GoAway,
    Acquired,
    Interrupted,
    InternalError,
    Other(u16, Seq<char>),
}

impl View for CloseCode {
    type V = CloseCodeView;

    open spec fn view(&self) -> CloseCodeView {
        match self {
            CloseCode::Normal => CloseCodeView::Normal,
            CloseCode::GoAway => CloseCodeView::GoAway,
            CloseCode::Acquired => CloseCodeView::Acquired,
            CloseCode::Interrupted => CloseCodeView::Interrupted,
            CloseCode::InternalError => CloseCodeView::InternalError,
            CloseCode::Other(n, r) => CloseCodeView::Other(*n, r@),
        }
    }
}

impl CloseCodeView {
    pub open spec fn spec_num(self) -> u16 {
        match self {
            CloseCodeView::Normal => 3000,
            CloseCodeView::GoAway => 3000,
            CloseCodeView::Acquired => 2010,
            CloseCodeView::Interrupted => 1002,
            CloseCodeView::InternalError => 1011,
            CloseCodeView::Other(n, _) => n,
        }
    }

    pub open spec fn spec_reason(self) -> Seq<char> {
        match self {
            CloseCodeView::Normal => "Go away!"@,
            CloseCodeView::GoAway => "Go away!"@,
            CloseCodeView::Acquired => "Another connection still open"@,
            CloseCodeView::Interrupted => "Connection interrupted"@,
            CloseCodeView::InternalError => "Internal error"@,
            CloseCodeView::Other(_, r) => r,
        }
    }

    /// The `c[<num>,"<reason>"]` wire form shared by the HTTP transports: a
    /// fixed text for each named code, and the decimal code with the
    /// JSON-quoted reason for a user-provided one.
    pub open spec fn spec_close_body(self) -> Seq<char> {
        match self {
            CloseCodeView::Normal => "c[3000,\"Go away!\"]"@,
            CloseCodeView::GoAway => "c[3000,\"Go away!\"]"@,
            CloseCodeView::Acquired => "c[2010,\"Another connection still open\"]"@,
            CloseCodeView::Interrupted => "c[1002,\"Connection interrupted\"]"@,
            CloseCodeView::InternalError => "c[1011,\"Internal error\"]"@,
            CloseCodeView::Other(n, r) => "c["@ + dec_of(n as int) + ","@ + crate::json::json_quoted(
                r,
            ) + "]"@,
        }
    }
}

impl Clone for CloseCode {
    /// A clone carries the same abstract code.
    fn clone(&self) -> (r: Self)
        ensures
            r@ == self@,
    {
        match self {
            CloseCode::Normal => CloseCode::Normal,
            CloseCode::GoAway => CloseCode::GoAway,
            CloseCode::Acquired => CloseCode::Acquired,
            CloseCode::Interrupted => CloseCode::Interrupted,
            CloseCode::InternalError => CloseCode::InternalError,
            CloseCode::Other(n, r) => CloseCode::Other(*n, r.clone()),
        }
    }
}

impl CloseCode {
    pub fn num(&self) -> (n: u16)
        ensures
            n == self@.spec_num(),
    {
        match self {
            CloseCode::Normal => 3000,
            CloseCode::GoAway => 3000,
            CloseCode::Acquired => 2010,
            CloseCode::Interrupted => 1002,
            CloseCode::InternalError => 1011,
            CloseCode::Other(n, _) => *n,
        }
    }

    pub fn reason(&self) -> (r: &str)
        ensures
            r@ == self@.spec_reason(),
    {
        match self {
            CloseCode::Normal => "Go away!",
            CloseCode::GoAway => "Go away!",
            CloseCode::Acquired => "Another connection still open",
            CloseCode::Interrupted => "Connection interrupted",
            CloseCode::InternalError => "Internal error",
            CloseCode::Other(_, r) => r.as_str(),
        }
    }

    /// The `c[<num>,"<reason>"]` wire body for this code.
    pub fn close_body(&self) -> (r: String)
        ensures
            r@ == self@.spec_close_body(),
    {
        match self {
            CloseCode::Normal => "c[3000,\"Go away!\"]".to_owned(),
            CloseCode::GoAway => "c[3000,\"Go away!\"]".to_owned(),
            CloseCode::Acquired => "c[2010,\"Another connection still open\"]".to_owned(),
            CloseCode::Interrupted => "c[1002,\"Connection interrupted\"]".to_owned(),
            CloseCode::InternalError => "c[1011,\"Internal error\"]".to_owned(),
            CloseCode::Other(n, reason) => {
                let mut out = "c[".to_owned();
                let digits = u32_dec(*n as u32);
                out.append(digits.as_str());
                out.append(",");
                let q = crate::json::json_encode_str(reason.as_str());
                out.append(q.as_str());
                out.append("]");
                out
            },
        }
    }
}

/// The decimal digits of `n`, most significant first.
pub open spec fn dec_of(n: int) -> Seq<char>
    decreases n,
{
    if 0 <= n < 10 {
        seq![dec_digit(n)]
    } else if n >= 10 {
        dec_of(n / 10).push(dec_digit(n % 10))
    } else {
        Seq::empty()
    }
}

/// The character for one decimal digit.
pub open spec fn dec_digit(d: int) -> char {
    ((48 + d) as u8) as char
}

/// Relies on u32's Display implementation: the decimal digits of the value,
/// most significant first.
#[verifier::external_body]
pub(crate) fn u32_dec(n: u32) -> (r: String)
    ensures
        r@ == dec_of(n as int),
{
    format!("{}", n)
}

/// Why a session context was told it is over.
#[derive(Clone, Copy, PartialEq, Eq, Structural, Debug)]
pub enum CloseReason {
    /// The transport drove an explicit close.
    Normal,
    /// The transport dropped without a clean close.
    Interrupted,
    /// The idle sweeper reaped the parked session.
    Expired,
}

/// Lifecycle of a session record.
#[derive(Clone, Copy, PartialEq, Eq, Structural, Debug)]
pub enum SessionState {
    /// Created, no transport has run its open handshake yet.
    New,
    /// Open and exchanging frames.
    Running,
    /// Terminal: a close frame was delivered.
    Closed,
    /// Terminal after grace: the transport disconnected without a close.
    Interrupted,
}

/// An inbound client message.
#[derive(Debug)]
pub struct Message(pub String);

impl View for Message {
    type V = Seq<char>;

    open spec fn view(&self) -> Seq<char> {
        self.0@
    }
}

impl Clone for Message {
    /// A clone carries the same payload.
    fn clone(&self) -> (r: Self)
        ensures
            r@ == self@,
    {
        Message(self.0.clone())
    }
}

/// Errors of the registry's acquire/dispatch operations.
#[derive(Clone, Copy, PartialEq, Eq, Structural, Debug)]
pub enum SessionError {
    /// Another transport is attached to the session.
    Acquired,
    /// The registry itself failed.
    Internal,
}

impl SessionError {
    /// The close code a transport reports for this error.
    pub open spec fn spec_close_code(self) -> CloseCode {
        match self {
            SessionError::Acquired => CloseCode::Acquired,
            SessionError::Internal => CloseCode::InternalError,
        }
    }

    pub fn close_code(&self) -> (c: CloseCode)
        ensures
            c == self.spec_close_code(),
    {
        match self {
            SessionError::Acquired => CloseCode::Acquired,
            SessionError::Internal => CloseCode::InternalError,
        }
    }
}

/// Events the registry pushes into a session context's input channel.
#[derive(Clone, Copy, PartialEq, Eq, Structural, Debug)]
pub enum SockJSChannel {
    /// First-ever attach; user code sees `on_open`.
    Opened,
    /// A transport attached.
    Acquired,
    /// The transport detached cleanly.
    Released,
    /// Terminal.
    Closed(CloseReason),
}

/// The mathematical value of a [`Frame`].
pub enum FrameView {
    Open,
    Heartbeat,
    Message(Seq<char>),
    MessageVec(Seq<char>),
    MessageBlob(Seq<u8>),
    Close(CloseCodeView),
}

/// A server-to-client frame.
#[derive(Debug)]
pub enum Frame {
    /// Signals that the session opened.
    Open,
    /// Keep-alive.
    Heartbeat,
    /// A single UTF-8 payload.
    Message(String),
    /// An already-serialized JSON array of payloads, brackets included.
    MessageVec(String),
    /// A binary payload; only the websocket wire carries it.
    MessageBlob(Vec<u8>),
    /// Terminal close with its code.
    Close(CloseCode),
}

impl View for Frame {
    type V = FrameView;

    open spec fn view(&self) -> FrameView {
        match self {
            Frame::Open => FrameView::Open,
            Frame::Heartbeat => FrameView::Heartbeat,
            Frame::Message(s) => FrameView::Message(s@),
            Frame::MessageVec(s) => FrameView::MessageVec(s@),
            Frame::MessageBlob(b) => FrameView::MessageBlob(b@),
            Frame::Close(c) => FrameView::Close(c@),
        }
    }
}

/// Copies a byte vector element by element.
pub(crate) fn clone_bytes(v: &Vec<u8>) -> (r: Vec<u8>)
    ensures
        r@ == v@,
{
    let mut r: Vec<u8> = Vec::new();
    let mut i: usize = 0;
    while i < v.len()
        invariant
            i <= v.len(),
            r@ == v@.subrange(0, i as int),
        decreases v.len() - i,
    {
        r.push(v[i]);
        i = i + 1;
        proof {
            assert(r@ =~= v@.subrange(0, i as int));
        }
    }
    proof {
        assert(r@ =~= v@);
    }
    r
}

impl Clone for Frame {
    /// A clone carries the same abstract frame.
    fn clone(&self) -> (r: Self)
        ensures
            r@ == self@,
    {
        match self {
            Frame::Open => Frame::Open,
            Frame::Heartbeat => Frame::Heartbeat,
            Frame::Message(s) => Frame::Message(s.clone()),
            Frame::MessageVec(s) => Frame::MessageVec(s.clone()),
            Frame::MessageBlob(b) => Frame::MessageBlob(clone_bytes(b)),
            Frame::Close(c) => Frame::Close(c.clone()),
        }
    }
}

} // verus!
