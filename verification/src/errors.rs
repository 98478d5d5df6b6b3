//! Error kinds surfaced by the session core and the wire protocol.

use vstd::prelude::*;

verus! {

/// Every failure a caller of the library can observe.
#[derive(Debug, Clone, PartialEq, Eq)]
pub enum VtError {
    /// The registry holds no session under the given id.
    SessionNotFound,
    /// The registry already holds a session under the given id.
    IdCollision,
    /// The child process could not be started, or its pid is unavailable.
    SpawnFailed(String),
    /// The exclusive writer of the master PTY could not be taken.
    WriterUnavailable(String),
    /// The reader of the master PTY could not be cloned.
    ReaderUnavailable(String),
    /// A system call on write/resize/kill/exit-check failed.
    IoFailed(String),
    /// A frame carried a type byte outside the defined codes.
    BadMessageType(u8),
    /// The output queue is detached because the reader worker exited.
    ReaderGone,
    /// The supervisor socket could not be reached after bounded retries.
    ChannelConnectFailed(String),
}

impl VtError {
    /// A short human-readable label for the error kind.
    pub fn kind_label(&self) -> (r: &'static str)
        ensures
            r@ == self.spec_kind_label(),
    {
        match self {
            VtError::SessionNotFound => "session not found",
            VtError::IdCollision => "session id collision",
            VtError::SpawnFailed(_) => "spawn failed",
            VtError::WriterUnavailable(_) => "writer unavailable",
            VtError::ReaderUnavailable(_) => "reader unavailable",
            VtError::IoFailed(_) => "io failed",
            VtError::BadMessageType(_) => "bad message type",
            VtError::ReaderGone => "reader gone",
            VtError::ChannelConnectFailed(_) => "channel connect failed",
        }
    }

    /// What `kind_label` returns for each variant.
    pub open spec fn spec_kind_label(&self) -> Seq<char> {
        match self {
            VtError::SessionNotFound => "session not found"@,
            VtError::IdCollision => "session id collision"@,
            VtError::SpawnFailed(_) => "spawn failed"@,
            VtError::WriterUnavailable(_) => "writer unavailable"@,
            VtError::ReaderUnavailable(_) => "reader unavailable"@,
            VtError::IoFailed(_) => "io failed"@,
            VtError::BadMessageType(_) => "bad message type"@,
            VtError::ReaderGone => "reader gone"@,
            VtError::ChannelConnectFailed(_) => "channel connect failed"@,
        }
    }
}

} // verus!
