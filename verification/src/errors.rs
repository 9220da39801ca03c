//! The failures that the bus reports, and the kind each belongs to.

use vstd::prelude::*;
use vstd::std_specs::convert::FromSpecImpl;

verus! {

/// `std::io::Error`, carried through without being looked into.
#[verifier::external_type_specification]
#[verifier::external_body]
pub struct ExIoError(std::io::Error);

/// `bincode::error::EncodeError`, carried through without being looked into.
#[verifier::external_type_specification]
#[verifier::external_body]
pub struct ExEncodeError(bincode::error::EncodeError);

/// `bincode::error::DecodeError`, carried through without being looked into.
#[verifier::external_type_specification]
#[verifier::external_body]
pub struct ExDecodeError(bincode::error::DecodeError);

/// A failure of a server or client operation. None is retried by the bus.
#[derive(Debug)]
pub enum BroadcastError {
    /// Bind, accept, connect, read or write failed; the cause is inside.
    Io(std::io::Error),
    /// A message could not be turned into bytes.
    Bincode(bincode::error::EncodeError),
    /// The bytes of one read were not a message. Ends the client loop that met it.
    Decode(bincode::error::DecodeError),
    /// The endpoint path is taken: a live listener holds it.
    SocketExists,
    /// A leftover entry at the endpoint path could not be removed; the cause
    /// is inside.
    StaleEntry(std::io::Error),
    /// The connection failed, told in words where no cause is at hand.
    Connection(String),
    /// A failure that the caller's handler reports, in words.
    Broadcast(String),
}

/// The five kinds of failure.
#[derive(Debug, Clone, Copy, PartialEq, Eq, Structural)]
pub enum ErrorKind {
    /// The transport failed.
    Transport,
    /// A message could not be serialized.
    Encode,
    /// Received bytes could not be deserialized.
    Decode,
    /// The endpoint path is taken by a live listener or by a leftover that
    /// could not be removed.
    AddressInUse,
    /// The caller's handler reported a failure.
    Application,
}

impl BroadcastError {
    /// The kind of each variant.
    pub open spec fn kind_of(self) -> ErrorKind {
        match self {
            BroadcastError::Io(_) => ErrorKind::Transport,
            BroadcastError::Bincode(_) => ErrorKind::Encode,
            BroadcastError::Decode(_) => ErrorKind::Decode,
            BroadcastError::SocketExists => ErrorKind::AddressInUse,
            BroadcastError::StaleEntry(_) => ErrorKind::AddressInUse,
            BroadcastError::Connection(_) => ErrorKind::Transport,
            BroadcastError::Broadcast(_) => ErrorKind::Application,
        }
    }

    /// Classifies this failure.
    pub fn kind(&self) -> (k: ErrorKind)
        ensures
            k == self.kind_of(),
    {
        match self {
            BroadcastError::Io(_) => ErrorKind::Transport,
            BroadcastError::Bincode(_) => ErrorKind::Encode,
            BroadcastError::Decode(_) => ErrorKind::Decode,
            BroadcastError::SocketExists => ErrorKind::AddressInUse,
            BroadcastError::StaleEntry(_) => ErrorKind::AddressInUse,
            BroadcastError::Connection(_) => ErrorKind::Transport,
            BroadcastError::Broadcast(_) => ErrorKind::Application,
        }
    }
}

impl From<std::io::Error> for BroadcastError {
    fn from(cause: std::io::Error) -> (e: BroadcastError) {
        BroadcastError::Io(cause)
    }
}

impl FromSpecImpl<std::io::Error> for BroadcastError {
    open spec fn obeys_from_spec() -> bool {
        true
    }

    open spec fn from_spec(cause: std::io::Error) -> BroadcastError {
        BroadcastError::Io(cause)
    }
}

impl From<bincode::error::EncodeError> for BroadcastError {
    fn from(cause: bincode::error::EncodeError) -> (e: BroadcastError) {
        BroadcastError::Bincode(cause)
    }
}

impl FromSpecImpl<bincode::error::EncodeError> for BroadcastError {
    open spec fn obeys_from_spec() -> bool {
        true
    }

    open spec fn from_spec(cause: bincode::error::EncodeError) -> BroadcastError {
        BroadcastError::Bincode(cause)
    }
}

impl From<bincode::error::DecodeError> for BroadcastError {
    fn from(cause: bincode::error::DecodeError) -> (e: BroadcastError) {
        BroadcastError::Decode(cause)
    }
}

impl FromSpecImpl<bincode::error::DecodeError> for BroadcastError {
    open spec fn obeys_from_spec() -> bool {
        true
    }

    open spec fn from_spec(cause: bincode::error::DecodeError) -> BroadcastError {
        BroadcastError::Decode(cause)
    }
}

} // verus!
