//! The error taxonomy shared by every fallible operation of the library.

use vstd::prelude::*;

verus! {

/// Why an operation was refused or failed.
#[derive(Clone, Copy, Debug, PartialEq, Eq, Structural)]
pub enum Error {
    /// No resolvable identity was presented.
    Unauthenticated,
    /// An identity was presented but lacks the required permission.
    Forbidden,
    /// The operation conflicts with existing state, such as deleting a
    /// role that users are still assigned to.
    Conflict,
    /// A malformed or self-targeting request.
    InvalidRequest,
    /// The referenced entity does not exist.
    NotFound,
    /// The backing store could not complete the operation.
    StoreUnavailable,
}

impl Error {
    /// A short stable label for logging and display.
    pub fn label(&self) -> (r: &'static str)
        ensures
            *self is Unauthenticated ==> r@ == "unauthenticated"@,
            *self is Forbidden ==> r@ == "forbidden"@,
            *self is Conflict ==> r@ == "conflict"@,
            *self is InvalidRequest ==> r@ == "invalid_request"@,
            *self is NotFound ==> r@ == "not_found"@,
            *self is StoreUnavailable ==> r@ == "store_unavailable"@,
    {
        match self {
            Error::Unauthenticated => "unauthenticated",
            Error::Forbidden => "forbidden",
            Error::Conflict => "conflict",
            Error::InvalidRequest => "invalid_request",
            Error::NotFound => "not_found",
            Error::StoreUnavailable => "store_unavailable",
        }
    }
}

} // verus!
