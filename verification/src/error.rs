//! What can go wrong: on one call of the transport, and for a caller of the library.

use vstd::prelude::*;

verus! {

/// `quiche::Error`, carried through as it is.
#[verifier::external_type_specification]
#[verifier::external_body]
pub struct ExTransportError(quiche::Error);

/// How a call on a connection failed: it had nothing to do, or it went wrong.
#[derive(Clone, Copy, PartialEq, Eq, Debug)]
pub enum QuicError {
    /// There was no work to do.
    Done,
    /// The call failed.
    Failed(quiche::Error),
}

/// The broad category of a [`StreamError`].
#[derive(Clone, Copy, PartialEq, Eq, Structural, Debug)]
pub enum ErrorKind {
    /// The thing to be made is there already.
    AlreadyExists,
    /// The other side of a channel is gone.
    BrokenPipe,
    /// The connection was closed while it was being set up.
    ConnectionAborted,
    /// The bytes make no sense.
    InvalidData,
    /// Nothing could be written.
    WriteZero,
    /// Anything else.
    Other,
}

/// An error of the library.
#[derive(Clone, Copy, PartialEq, Eq, Debug)]
pub enum StreamError {
    /// A stream with the same addresses and connection id is registered.
    StreamExists,
    /// A packet would open a connection and nobody listens.
    NoListener,
    /// Every source of outgoing packets is gone.
    PacketsClosed,
    /// The source of incoming packets was gone when it was polled.
    InputDisconnected,
    /// The connection was closed before the handshake completed.
    Aborted,
    /// What had to be sent was not taken.
    WriteZero,
    /// The source of incoming packets was closed.
    InputClosed,
    /// The source of outgoing data was closed.
    OutputClosed,
    /// No more streams will be accepted.
    AcceptClosed,
    /// A packet or a connection request was not understood.
    InvalidData(quiche::Error),
    /// The transport failed.
    Transport(quiche::Error),
}

impl StreamError {
    /// The category of an error.
    pub open spec fn spec_kind(self) -> ErrorKind {
        match self {
            StreamError::StreamExists => ErrorKind::AlreadyExists,
            StreamError::NoListener => ErrorKind::BrokenPipe,
            StreamError::PacketsClosed => ErrorKind::BrokenPipe,
            StreamError::InputDisconnected => ErrorKind::BrokenPipe,
            StreamError::Aborted => ErrorKind::ConnectionAborted,
            StreamError::WriteZero => ErrorKind::WriteZero,
            StreamError::InputClosed => ErrorKind::Other,
            StreamError::OutputClosed => ErrorKind::Other,
            StreamError::AcceptClosed => ErrorKind::Other,
            StreamError::InvalidData(_) => ErrorKind::InvalidData,
            StreamError::Transport(_) => ErrorKind::Other,
        }
    }

    /// The text that goes with an error, where it has one of its own.
    pub open spec fn spec_message(self) -> Option<Seq<char>> {
        match self {
            StreamError::StreamExists => Some("stream already exists"@),
            StreamError::NoListener => Some("no active listener"@),
            StreamError::InputClosed => Some("input close"@),
            StreamError::OutputClosed => Some("output close"@),
            _ => None,
        }
    }

    /// The category of the error.
    pub fn kind(&self) -> (kind: ErrorKind)
        ensures
            kind == self.spec_kind(),
    {
        match self {
            StreamError::StreamExists => ErrorKind::AlreadyExists,
            StreamError::NoListener => ErrorKind::BrokenPipe,
            StreamError::PacketsClosed => ErrorKind::BrokenPipe,
            StreamError::InputDisconnected => ErrorKind::BrokenPipe,
            StreamError::Aborted => ErrorKind::ConnectionAborted,
            StreamError::WriteZero => ErrorKind::WriteZero,
            StreamError::InputClosed => ErrorKind::Other,
            StreamError::OutputClosed => ErrorKind::Other,
            StreamError::AcceptClosed => ErrorKind::Other,
            StreamError::InvalidData(_) => ErrorKind::InvalidData,
            StreamError::Transport(_) => ErrorKind::Other,
        }
    }

    /// The text that goes with the error, where it has one of its own.
    pub fn message(&self) -> (text: Option<&'static str>)
        ensures
            text is Some <==> self.spec_message() is Some,
            text matches Some(t) ==> t@ == self.spec_message()->0,
    {
        match self {
            StreamError::StreamExists => Some("stream already exists"),
            StreamError::NoListener => Some("no active listener"),
            StreamError::InputClosed => Some("input close"),
            StreamError::OutputClosed => Some("output close"),
            _ => None,
        }
    }
}

} // verus!
