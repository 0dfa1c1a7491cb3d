//! Error values shared by every SDK operation.
use vstd::prelude::*;

verus! {

/// The reason an SDK operation failed.
#[derive(Clone, Copy, Debug, PartialEq, Eq, Structural)]
pub enum ErrorCode {
    InvalidArgument,
    PermissionDenied,
    QueueFull,
    QueueEmpty,
    NotFound,
    Unsupported,
    Transport,
}

/// An SDK error, carrying its [`ErrorCode`].
#[derive(Clone, Copy, Debug, PartialEq, Eq, Structural)]
pub struct Error {
    pub code: ErrorCode,
}

impl Error {
    /// Wraps an error code.
    pub fn new(code: ErrorCode) -> (e: Error)
        ensures
            e.code == code,
    {
        Error { code }
    }

    /// The code this error carries.
    pub fn code(&self) -> (c: ErrorCode)
        ensures
            c == self.code,
    {
        self.code
    }
}

/// The error value with the given code, in specifications.
pub open spec fn err(code: ErrorCode) -> Error {
    Error { code }
}

} // verus!
