//! The trade history query.

use vstd::prelude::*;

verus! {

/// Query of `GET /api/v1/history`: the page of trades to return.
pub struct HistoryQuery {
    pub limit: Option<i64>,
    pub offset: Option<i64>,
}

} // verus!
