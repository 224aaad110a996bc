//! Defaults and the integer checks of the multi-leg payoff request.

use vstd::prelude::*;
use crate::error::{AppError, BAD_REQUEST};
use crate::text::string_of;

verus! {

/// Number of intervals of the payoff curve when the request names none.
pub fn default_steps() -> (steps: u32)
    ensures
        steps == 200,
{
    200
}

/// A payoff request needs at least one leg: refused with 400
/// "legs must not be empty" exactly when it has none.
pub fn check_payoff_legs(leg_count: usize) -> (res: Result<(), AppError>)
    ensures
        res is Ok <==> leg_count > 0,
        res matches Err(e) ==> e.status == BAD_REQUEST && e.message@ == "legs must not be empty"@,
{
    if leg_count == 0 {
        return Err(AppError::new(BAD_REQUEST, string_of("legs must not be empty")));
    }
    Ok(())
}

/// A payoff curve needs at least one interval: refused with 400
/// "steps must be positive" exactly when `steps` is 0.
pub fn check_payoff_steps(steps: u32) -> (res: Result<(), AppError>)
    ensures
        res is Ok <==> steps > 0,
        res matches Err(e) ==> e.status == BAD_REQUEST && e.message@ == "steps must be positive"@,
{
    if steps == 0 {
        return Err(AppError::new(BAD_REQUEST, string_of("steps must be positive")));
    }
    Ok(())
}

} // verus!
