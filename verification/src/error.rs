//! The error kinds every operation reports, each carrying its message.
use vstd::prelude::*;

verus! {

/// What went wrong, by the kind of remedy it needs.
#[derive(Debug, Clone)]
pub enum Error {
    /// Malformed or out-of-range input.
    Validation(String),
    /// Checkpoint, store, or document integrity failure.
    Integrity(String),
    /// A command used in a way it refuses.
    CliUsage(String),
    /// A conflicting concurrent change or an invalid transition.
    Conflict(String),
    /// A named workspace, issue, or file does not exist.
    NotFound(String),
    /// A workspace-level condition: a missing or malformed workspace file,
    /// or a checkpoint state that needs the workspace's attention.
    Workspace(String),
    /// An internal failure.
    Internal(String),
    /// A timed claim's lease has expired or no longer exists.
    LeaseExpired(String),
    /// A stale or missing claim credential.
    LeaseConflict(String),
}

/// The kind of an error, without its message.
#[derive(Debug, Clone, Copy, PartialEq, Eq, Structural)]
pub enum ErrorKind {
    Validation,
    Integrity,
    CliUsage,
    Conflict,
    NotFound,
    Workspace,
    Internal,
    LeaseExpired,
    LeaseConflict,
}

impl Error {
    /// The kind of the error.
    pub open spec fn kind(&self) -> ErrorKind {
        match self {
            Error::Validation(_) => ErrorKind::Validation,
            Error::Integrity(_) => ErrorKind::Integrity,
            Error::CliUsage(_) => ErrorKind::CliUsage,
            Error::Conflict(_) => ErrorKind::Conflict,
            Error::NotFound(_) => ErrorKind::NotFound,
            Error::Workspace(_) => ErrorKind::Workspace,
            Error::Internal(_) => ErrorKind::Internal,
            Error::LeaseExpired(_) => ErrorKind::LeaseExpired,
            Error::LeaseConflict(_) => ErrorKind::LeaseConflict,
        }
    }

    /// The error is of this kind and carries this message.
    pub open spec fn is(&self, kind: ErrorKind, text: Seq<char>) -> bool {
        self.kind() == kind && self.text() == text
    }

    /// The message the error carries.
    pub open spec fn text(&self) -> Seq<char> {
        match self {
            Error::Validation(m) => m@,
            Error::Integrity(m) => m@,
            Error::CliUsage(m) => m@,
            Error::Conflict(m) => m@,
            Error::NotFound(m) => m@,
            Error::Workspace(m) => m@,
            Error::Internal(m) => m@,
            Error::LeaseExpired(m) => m@,
            Error::LeaseConflict(m) => m@,
        }
    }

    /// The stable process exit code of the error's kind: 2 for usage and
    /// validation, 3 for a workspace, issue or file not found (workspace
    /// errors included), 4 for conflicts, 5 for integrity and malformed
    /// input, 1 for internal failures; an expired lease and a stale claim
    /// credential are conflicts.
    pub open spec fn code(&self) -> i32 {
        match self {
            Error::Validation(_) => 2,
            Error::CliUsage(_) => 2,
            Error::NotFound(_) => 3,
            Error::Conflict(_) => 4,
            Error::Integrity(_) => 5,
            Error::Workspace(_) => 3,
            Error::Internal(_) => 1,
            Error::LeaseExpired(_) => 4,
            Error::LeaseConflict(_) => 4,
        }
    }

    /// The message the error carries.
    pub fn message(&self) -> (r: String)
        ensures
            r@ == self.text(),
    {
        match self {
            Error::Validation(m) => m.clone(),
            Error::Integrity(m) => m.clone(),
            Error::CliUsage(m) => m.clone(),
            Error::Conflict(m) => m.clone(),
            Error::NotFound(m) => m.clone(),
            Error::Workspace(m) => m.clone(),
            Error::Internal(m) => m.clone(),
            Error::LeaseExpired(m) => m.clone(),
            Error::LeaseConflict(m) => m.clone(),
        }
    }

    /// The process exit code for this error.
    pub fn exit_code(&self) -> (r: i32)
        ensures
            r == self.code(),
    {
        match self {
            Error::Validation(_) => 2,
            Error::CliUsage(_) => 2,
            Error::NotFound(_) => 3,
            Error::Conflict(_) => 4,
            Error::Integrity(_) => 5,
            Error::Workspace(_) => 3,
            Error::Internal(_) => 1,
            Error::LeaseExpired(_) => 4,
            Error::LeaseConflict(_) => 4,
        }
    }
}

} // verus!
