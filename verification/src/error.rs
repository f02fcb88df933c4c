//! The ways an execution can fail.

use std::time::Duration;
use vstd::prelude::*;

verus! {

/// The kind of a system-level failure, as far as the engine tells kinds
/// apart.
#[derive(Debug, Clone, Copy, PartialEq, Eq, Structural)]
pub enum IoErrorKind {
    /// The program or the directory does not exist.
    NotFound,
    /// The system refused the operation.
    PermissionDenied,
    /// A pipe was closed on the other side.
    BrokenPipe,
    /// The operation would have had to wait, and waiting was not asked for.
    WouldBlock,
    /// Data arrived that cannot be read as what it should be.
    InvalidData,
    /// The system gave up waiting.
    TimedOut,
    /// Anything else.
    Other,
}

/// A system-level failure: its kind and a description.
#[derive(Debug)]
pub struct IoFailure {
    pub kind: IoErrorKind,
    pub message: String,
}

/// Why a command did not give an output.
#[derive(Debug)]
pub enum ExecuteError {
    /// Spawning, a pipe, or another call into the system failed.
    Io(IoFailure),
    /// The command ran longer than the limit carried here and was killed.
    Timeout(Duration),
    /// A child process behaved in a way that cannot be interpreted, such as
    /// a resident worker answering with a malformed line.
    Child(String),
}

impl IoFailure {
    /// A failure of the given kind, described by `message`.
    pub fn new(kind: IoErrorKind, message: &str) -> (failure: Self)
        ensures
            failure.kind == kind,
            failure.message@ == message@,
    {
        IoFailure { kind, message: message.to_owned() }
    }
}

impl ExecuteError {
    /// An I/O error of the given kind, described by `message`.
    pub fn io(kind: IoErrorKind, message: &str) -> (error: Self)
        ensures
            error.is_io(kind, message@),
    {
        ExecuteError::Io(IoFailure::new(kind, message))
    }

    /// A child-state error described by `message`.
    pub fn child(message: &str) -> (error: Self)
        ensures
            error.is_child(message@),
    {
        ExecuteError::Child(message.to_owned())
    }

    /// Whether this is an I/O error of kind `kind` that reads `message`.
    pub open spec fn is_io(self, kind: IoErrorKind, message: Seq<char>) -> bool {
        self matches ExecuteError::Io(failure) && failure.kind == kind && failure.message@
            == message
    }

    /// Whether this is a child-state error that reads `message`.
    pub open spec fn is_child(self, message: Seq<char>) -> bool {
        self matches ExecuteError::Child(text) && text@ == message
    }

    /// Whether this is the timeout error for `limit`.
    pub open spec fn is_timeout(self, limit: Duration) -> bool {
        self == ExecuteError::Timeout(limit)
    }
}

} // verus!
