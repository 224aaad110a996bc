//! A JSON-bodied API error: an HTTP status code and a human-readable
//! message.

use vstd::prelude::*;
use crate::text::string_of;

verus! {

/// An error answered with `status` and the body `{"error": message}`.
pub struct AppError {
    pub status: u16,
    pub message: String,
}

impl AppError {
    /// An error with the given status code and message.
    pub fn new(status: u16, message: String) -> (e: AppError)
        ensures
            e.status == status,
            e.message@ == message@,
    {
        AppError { status, message }
    }
}

/// HTTP 400.
pub const BAD_REQUEST: u16 = 400u16;

/// HTTP 404.
pub const NOT_FOUND: u16 = 404u16;

/// The message for an underlying with no market: `unknown underlying "X"`.
pub open spec fn unknown_underlying_message(underlying: Seq<char>) -> Seq<char> {
    "unknown underlying \""@ + underlying + "\""@
}

/// 404 for an underlying with no market.
pub fn unknown_underlying(underlying: &str) -> (e: AppError)
    ensures
        e.status == NOT_FOUND,
        e.message@ == unknown_underlying_message(underlying@),
{
    let mut message = string_of("unknown underlying \"");
    message.append(underlying);
    message.append("\"");
    AppError { status: NOT_FOUND, message }
}

} // verus!
