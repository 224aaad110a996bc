//! Rows of the tables whose columns are all plain text.

use vstd::prelude::*;

verus! {

/// A symbol on a wallet's watchlist.
pub struct WatchlistItem {
    pub wallet_address: String,
    pub underlying: String,
    pub added_at: String,
}

} // verus!
