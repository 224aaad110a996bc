//! Rules of price alerts: which conditions exist, and what deleting one
//! that is not there answers.

use vstd::prelude::*;
use crate::error::{AppError, BAD_REQUEST, NOT_FOUND};
use crate::text::{string_of, text_eq};

verus! {

/// When an alert fires.
#[derive(Debug, Clone, Copy, PartialEq, Eq, Structural)]
pub enum AlertCondition {
    /// Once spot reaches or exceeds the target.
    Above,
    /// Once spot reaches or falls below the target.
    Below,
}

/// The condition that `text` names, if any.
pub open spec fn alert_condition_of(text: Seq<char>) -> Option<AlertCondition> {
    if text == "above"@ {
        Some(AlertCondition::Above)
    } else if text == "below"@ {
        Some(AlertCondition::Below)
    } else {
        None
    }
}

/// The message for a condition that is neither `above` nor `below`.
pub open spec fn invalid_condition_message() -> Seq<char> {
    "condition must be \"above\" or \"below\""@
}

/// The condition of a create-alert request, or a 400 for anything other
/// than `"above"` or `"below"`.
pub fn parse_alert_condition(condition: &str) -> (res: Result<AlertCondition, AppError>)
    ensures
        match res {
            Ok(c) => alert_condition_of(condition@) == Some(c),
            Err(e) => alert_condition_of(condition@) is None && e.status == BAD_REQUEST && e.message@
                == invalid_condition_message(),
        },
{
    if text_eq(condition, "above") {
        Ok(AlertCondition::Above)
    } else if text_eq(condition, "below") {
        Ok(AlertCondition::Below)
    } else {
        Err(AppError { status: BAD_REQUEST, message: string_of("condition must be \"above\" or \"below\"") })
    }
}

/// The answer to deleting an alert, given how many rows the delete
/// removed: a 404 when none was this wallet's alert with that id.
pub fn alert_deletion_outcome(rows_affected: u64) -> (res: Result<(), AppError>)
    ensures
        res is Ok <==> rows_affected > 0,
        res matches Err(e) ==> e.status == NOT_FOUND && e.message@ == "no alert with that id for this wallet"@,
{
    if rows_affected == 0 {
        return Err(AppError { status: NOT_FOUND, message: string_of("no alert with that id for this wallet") });
    }
    Ok(())
}

/// Alert conditions are named by exactly the words `above` and `below`:
/// those parse to their condition, and any other text to nothing.
pub proof fn lemma_condition_words(text: Seq<char>)
    ensures
        alert_condition_of("above"@) == Some(AlertCondition::Above),
        alert_condition_of("below"@) == Some(AlertCondition::Below),
        alert_condition_of(text) is Some ==> (text == "above"@ || text == "below"@),
{
    reveal_strlit("above");
    reveal_strlit("below");
    assert("above"@[0] != "below"@[0]);
}

} // verus!
