//! `limit`/`offset` pagination of the position list and the trade history.

use vstd::prelude::*;

verus! {

/// Page size when the request names none.
pub const DEFAULT_LIST_LIMIT: i64 = 50i64;

/// Largest page size a request can ask for.
pub const MAX_LIST_LIMIT: i64 = 200i64;

/// The page a request asks for, once clamped.
#[derive(Debug, Clone, Copy, PartialEq, Eq, Structural)]
pub struct PageBounds {
    pub limit: i64,
    pub offset: i64,
}

/// `v` clamped into `[lo, hi]`.
pub open spec fn clamp(v: int, lo: int, hi: int) -> int {
    if v < lo {
        lo
    } else if v > hi {
        hi
    } else {
        v
    }
}

/// The page size and offset used for a request: the limit (default
/// `DEFAULT_LIST_LIMIT`) clamped into `1..=MAX_LIST_LIMIT`, and the offset
/// (default 0) raised to at least 0.
pub fn page_bounds(limit: Option<i64>, offset: Option<i64>) -> (b: PageBounds)
    ensures
        b.limit == clamp(
            match limit {
                Some(l) => l as int,
                None => DEFAULT_LIST_LIMIT as int,
            },
            1,
            MAX_LIST_LIMIT as int,
        ),
        b.offset == (match offset {
            Some(o) => if o < 0 { 0 } else { o as int },
            None => 0,
        }),
        1 <= b.limit <= MAX_LIST_LIMIT,
        b.offset >= 0,
{
    let l = match limit {
        Some(l) => l,
        None => DEFAULT_LIST_LIMIT,
    };
    let l = if l < 1 {
        1
    } else if l > MAX_LIST_LIMIT {
        MAX_LIST_LIMIT
    } else {
        l
    };
    let o = match offset {
        Some(o) => if o < 0 { 0 } else { o },
        None => 0,
    };
    PageBounds { limit: l, offset: o }
}

/// Whether rows remain past a page at `offset` that returned `returned`
/// rows out of `total`.
pub fn has_more(offset: i64, returned: u64, total: i64) -> (more: bool)
    ensures
        more == (offset + returned < total),
{
    (offset as i128) + (returned as i128) < (total as i128)
}

/// How many of `total` rows a page of `limit` rows at `offset` holds.
pub open spec fn rows_on_page(total: int, offset: int, limit: int) -> int {
    clamp(total - offset, 0, limit)
}

/// Whether row `i` (0-based, in list order) is on the page at `offset`.
pub open spec fn on_page(i: int, total: int, offset: int, limit: int) -> bool {
    offset <= i < offset + rows_on_page(total, offset, limit)
}

/// `has_more` says whether the next page (at `offset + limit`) holds rows.
pub proof fn lemma_has_more_means_next_page_nonempty(total: int, offset: int, limit: int)
    requires
        total >= 0,
        offset >= 0,
        limit >= 1,
    ensures
        (offset + rows_on_page(total, offset, limit) < total) == (rows_on_page(total, offset + limit, limit)
            > 0),
{
}

/// A page shorter than `limit` is the last one: the next page is empty.
pub proof fn lemma_short_page_is_last(total: int, offset: int, limit: int)
    requires
        total >= 0,
        offset >= 0,
        limit >= 1,
        rows_on_page(total, offset, limit) < limit,
    ensures
        rows_on_page(total, offset + limit, limit) == 0,
{
}

/// Paging with a fixed `limit` at offsets `0, limit, 2 * limit, ...` shows
/// every row exactly once: row `i` is on page `i / limit`, and on no other.
pub proof fn lemma_pages_partition_rows(i: int, k: int, total: int, limit: int)
    requires
        0 <= i < total,
        limit >= 1,
        k >= 0,
    ensures
        on_page(i, total, (i / limit) * limit, limit),
        on_page(i, total, k * limit, limit) ==> k == i / limit,
{
    vstd::arithmetic::div_mod::lemma_fundamental_div_mod(i, limit);
    vstd::arithmetic::div_mod::lemma_mod_pos_bound(i, limit);
    let q = i / limit;
    assert(limit * q == q * limit) by (nonlinear_arith);
    assert(q * limit <= i < q * limit + limit);
    if on_page(i, total, k * limit, limit) {
        assert(k * limit <= i < k * limit + limit);
        if k < q {
            vstd::arithmetic::mul::lemma_mul_inequality(k + 1, q, limit);
            assert((k + 1) * limit == k * limit + limit) by (nonlinear_arith);
        } else if k > q {
            vstd::arithmetic::mul::lemma_mul_inequality(q + 1, k, limit);
            assert((q + 1) * limit == q * limit + limit) by (nonlinear_arith);
        }
    }
}

/// A requested page size is honoured when it lies in `1..=MAX_LIST_LIMIT`,
/// a smaller one becomes 1 and a larger one `MAX_LIST_LIMIT`; a request
/// that names none gets `DEFAULT_LIST_LIMIT`.
pub proof fn lemma_page_size_honoured(requested: int)
    ensures
        1 <= requested <= MAX_LIST_LIMIT ==> clamp(requested, 1, MAX_LIST_LIMIT as int) == requested,
        requested < 1 ==> clamp(requested, 1, MAX_LIST_LIMIT as int) == 1,
        requested > MAX_LIST_LIMIT ==> clamp(requested, 1, MAX_LIST_LIMIT as int) == MAX_LIST_LIMIT,
        clamp(DEFAULT_LIST_LIMIT as int, 1, MAX_LIST_LIMIT as int) == 50,
{
}

} // verus!
