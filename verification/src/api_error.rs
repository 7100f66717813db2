//! Errors answered by the GraphQL API.

use vstd::prelude::*;

verus! {

/// An error of the API: a machine-readable code, the HTTP status it is
/// answered with, and a message for humans.
#[derive(Debug)]
pub struct ApiError {
    /// Machine-readable code, such as `DUPLICATE_MIXIN_URL`.
    pub code: String,
    /// HTTP status.
    pub status: u16,
    /// Message for humans.
    pub message: String,
}

/// `e` is the error `code` with the HTTP status `status` and the message
/// `message`.
pub open spec fn is_error(e: ApiError, code: Seq<char>, status: u16, message: Seq<char>) -> bool {
    e.code@ == code && e.status == status && e.message@ == message
}

impl ApiError {
    /// The error `code` answered with `status` and `message`.
    pub fn new(code: &str, status: u16, message: String) -> (e: ApiError)
        ensures
            is_error(e, code@, status, message@),
    {
        ApiError { code: String::from_str(code), status, message }
    }
}

/// HTTP status of a request the API refuses as malformed.
pub const BAD_REQUEST: u16 = 400;

/// HTTP status of a request refused for want of the right password.
pub const FORBIDDEN: u16 = 403;

/// HTTP status of a request that conflicts with the state.
pub const CONFLICT: u16 = 409;

} // verus!
