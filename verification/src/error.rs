//! The error taxonomy shared by the authentication layer and the execution
//! bridge, and its mapping to HTTP status codes.

use vstd::prelude::*;

verus! {

/// The kinds of failure the library reports.
#[derive(Clone, Copy, Debug, PartialEq, Eq, Structural)]
pub enum ErrorKind {
    /// No pooled connection could be acquired.
    DbPoolError,
    /// A database unit of work failed.
    DbError,
    /// Bootstrap input could not be parsed or applied.
    BootstrapError,
    /// A protected resource was reached without an identity.
    Unauthorized,
    /// An identity could not be serialised.
    SerializeJsonError,
    /// A stored payload could not be deserialised.
    DeserializeJsonError,
    /// A value could not be carried in an HTTP header.
    HttpHeaderFailure,
    /// Password hashing or verification failed.
    HashPasswordFailure,
}

/// An error carrying one [`ErrorKind`].
#[derive(Clone, Copy, Debug, PartialEq, Eq, Structural)]
pub struct AppError {
    pub kind: ErrorKind,
}

/// The HTTP status an error maps to: absent or invalid identity renders as
/// 401, every other failure as 500.
pub open spec fn spec_status_code(kind: ErrorKind) -> u16 {
    if kind == ErrorKind::Unauthorized {
        401u16
    } else {
        500u16
    }
}

impl AppError {
    pub fn new(kind: ErrorKind) -> (r: AppError)
        ensures
            r.kind == kind,
    {
        AppError { kind }
    }

    pub fn kind(&self) -> (k: ErrorKind)
        ensures
            k == self.kind,
    {
        self.kind
    }

    /// The status code of the HTTP response this error degrades to.
    pub fn status_code(&self) -> (s: u16)
        ensures
            s == spec_status_code(self.kind),
    {
        match self.kind {
            ErrorKind::Unauthorized => 401,
            _ => 500,
        }
    }
}

/// Why a session payload was rejected by the codec: it did not parse, or its
/// integrity check failed.  Callers treat both the same way: discard, do not
/// trust.
#[derive(Clone, Copy, Debug, PartialEq, Eq, Structural)]
pub enum DecodeError {
    Malformed,
    TamperDetected,
}

} // verus!
