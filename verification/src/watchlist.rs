//! Rules of the per-wallet watchlist.

use vstd::prelude::*;
use crate::error::{AppError, NOT_FOUND};
use crate::text::string_of;

verus! {

/// Body of `POST /api/v1/watchlist`.
pub struct AddWatchlistRequest {
    pub underlying: String,
}

/// The message for removing a symbol that is not on the watchlist.
pub open spec fn not_on_watchlist_message(underlying: Seq<char>) -> Seq<char> {
    "\""@ + underlying + "\" is not on this wallet's watchlist"@
}

/// The answer to removing `underlying`, given how many rows the delete
/// removed: a 404 when it was not on this wallet's watchlist.
pub fn watchlist_removal_outcome(underlying: &str, rows_affected: u64) -> (res: Result<(), AppError>)
    ensures
        res is Ok <==> rows_affected > 0,
        res matches Err(e) ==> e.status == NOT_FOUND && e.message@ == not_on_watchlist_message(underlying@),
{
    if rows_affected == 0 {
        let mut message = string_of("\"");
        message.append(underlying);
        message.append("\" is not on this wallet's watchlist");
        return Err(AppError { status: NOT_FOUND, message });
    }
    Ok(())
}

} // verus!
