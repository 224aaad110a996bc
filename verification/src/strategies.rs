//! Rules of multi-leg strategies.

use vstd::prelude::*;

verus! {

/// Fewest legs a strategy may have; a single leg is a plain open.
pub const MIN_STRATEGY_LEGS: usize = 2usize;

/// Whether a strategy with `leg_count` legs may be executed (otherwise it
/// is answered with 400).
pub fn strategy_leg_count_ok(leg_count: usize) -> (ok: bool)
    ensures
        ok == (leg_count >= MIN_STRATEGY_LEGS),
{
    leg_count >= MIN_STRATEGY_LEGS
}

} // verus!
