//! The failures that a request can end in, and the status each one carries.

use vstd::prelude::*;

verus! {

/// The classes of failure.
#[derive(Debug, Clone, Copy, PartialEq, Eq, Structural)]
pub enum ErrorKind {
    /// The request is malformed or names a combination that does not exist.
    InvalidRequest,
    /// No credential, or one that does not verify.
    Unauthorized,
    /// The identifier resolves to no row.
    NotFound,
    /// The store failed; the reply carries no detail of it.
    Store,
}

impl ErrorKind {
    /// The HTTP status of the class.
    pub open spec fn status(self) -> u16 {
        match self {
            ErrorKind::InvalidRequest => 400,
            ErrorKind::Unauthorized => 401,
            ErrorKind::NotFound => 404,
            ErrorKind::Store => 500,
        }
    }
}

/// A failure: its class and the text shown to the client.
#[derive(Debug, Clone, PartialEq, Eq)]
pub struct ApiError {
    pub kind: ErrorKind,
    pub message: String,
}

impl ApiError {
    /// Whether this is the failure of class `kind` with text `message`.
    pub open spec fn is(self, kind: ErrorKind, message: Seq<char>) -> bool {
        self.kind == kind && self.message@ == message
    }

    /// The failure of class `kind` with text `message`.
    pub fn new(kind: ErrorKind, message: &str) -> (e: ApiError)
        ensures
            e.is(kind, message@),
    {
        ApiError { kind, message: message.to_owned() }
    }

    /// The HTTP status to reply with.
    pub fn status_code(&self) -> (code: u16)
        ensures
            code == self.kind.status(),
    {
        match self.kind {
            ErrorKind::InvalidRequest => 400,
            ErrorKind::Unauthorized => 401,
            ErrorKind::NotFound => 404,
            ErrorKind::Store => 500,
        }
    }
}

/// The store could not carry out a statement or a query.
#[derive(Debug, Clone, Copy, PartialEq, Eq, Structural)]
pub struct StoreFailure;

} // verus!
