//! Rules of the positions ledger that do not involve prices: which option
//! and position kinds exist, and how a position's status moves when it is
//! closed or rolled.

use vstd::prelude::*;
use crate::text::{string_of, text_eq};

verus! {

/// Query of `GET /api/v1/positions`: an optional status filter (`"open"`,
/// `"closed"` or `"rolled"`), an optional strategy filter, and the page.
pub struct ListPositionsQuery {
    pub status: Option<String>,
    pub strategy_id: Option<String>,
    pub limit: Option<i64>,
    pub offset: Option<i64>,
}

/// Call or put.
#[derive(Debug, Clone, Copy, PartialEq, Eq, Structural)]
pub enum OptionKind {
    Call,
    Put,
}

/// Bought (long) or written (short).
#[derive(Debug, Clone, Copy, PartialEq, Eq, Structural)]
pub enum Side {
    Long,
    Short,
}

/// The option kind that `text` names (`"call"` or `"put"`).
pub open spec fn option_kind_of(text: Seq<char>) -> Option<OptionKind> {
    if text == "call"@ {
        Some(OptionKind::Call)
    } else if text == "put"@ {
        Some(OptionKind::Put)
    } else {
        None
    }
}

/// The side that `text` names (`"long"` or `"short"`).
pub open spec fn side_of(text: Seq<char>) -> Option<Side> {
    if text == "long"@ {
        Some(Side::Long)
    } else if text == "short"@ {
        Some(Side::Short)
    } else {
        None
    }
}

/// The option kind of an open request.
pub fn parse_option_kind(option_type: &str) -> (k: Option<OptionKind>)
    ensures
        k == option_kind_of(option_type@),
{
    if text_eq(option_type, "call") {
        Some(OptionKind::Call)
    } else if text_eq(option_type, "put") {
        Some(OptionKind::Put)
    } else {
        None
    }
}

/// The side of an open request.
pub fn parse_side(position_type: &str) -> (s: Option<Side>)
    ensures
        s == side_of(position_type@),
{
    if text_eq(position_type, "long") {
        Some(Side::Long)
    } else if text_eq(position_type, "short") {
        Some(Side::Short)
    } else {
        None
    }
}

/// The option kind and side of an open request, checked in that order:
/// `None` (answered with 400) if either is unknown.
pub fn parse_leg_kinds(option_type: &str, position_type: &str) -> (res: Option<(OptionKind, Side)>)
    ensures
        match res {
            Some((k, s)) => option_kind_of(option_type@) == Some(k) && side_of(position_type@) == Some(s),
            None => option_kind_of(option_type@) is None || side_of(position_type@) is None,
        },
{
    let k = match parse_option_kind(option_type) {
        Some(k) => k,
        None => return None,
    };
    let s = match parse_side(position_type) {
        Some(s) => s,
        None => return None,
    };
    Some((k, s))
}

/// Where a position stands.
#[derive(Debug, Clone, Copy, PartialEq, Eq, Structural)]
pub enum PositionStatus {
    Open,
    Closed,
    Rolled,
}

/// The stored text of a status.
pub open spec fn status_text(s: PositionStatus) -> Seq<char> {
    match s {
        PositionStatus::Open => "open"@,
        PositionStatus::Closed => "closed"@,
        PositionStatus::Rolled => "rolled"@,
    }
}

/// The status that stored text names.
pub open spec fn status_of(text: Seq<char>) -> Option<PositionStatus> {
    if text == "open"@ {
        Some(PositionStatus::Open)
    } else if text == "closed"@ {
        Some(PositionStatus::Closed)
    } else if text == "rolled"@ {
        Some(PositionStatus::Rolled)
    } else {
        None
    }
}

impl PositionStatus {
    /// The stored text of the status.
    pub fn as_text(&self) -> (t: String)
        ensures
            t@ == status_text(*self),
    {
        match self {
            PositionStatus::Open => string_of("open"),
            PositionStatus::Closed => string_of("closed"),
            PositionStatus::Rolled => string_of("rolled"),
        }
    }

    /// The status that stored text names.
    pub fn parse(text: &str) -> (s: Option<PositionStatus>)
        ensures
            s == status_of(text@),
    {
        if text_eq(text, "open") {
            Some(PositionStatus::Open)
        } else if text_eq(text, "closed") {
            Some(PositionStatus::Closed)
        } else if text_eq(text, "rolled") {
            Some(PositionStatus::Rolled)
        } else {
            None
        }
    }
}

/// Whether a position with this status belongs to the trade history.
pub open spec fn in_history(s: PositionStatus) -> bool {
    s == PositionStatus::Closed || s == PositionStatus::Rolled
}

/// The status a position takes when settled: `Closed`, or `Rolled` when it
/// is closed as part of a roll. Only an open position can be settled; any
/// other is answered like an unknown position (404).
pub open spec fn settle_outcome(status: PositionStatus, rolling: bool) -> Option<PositionStatus> {
    if status == PositionStatus::Open {
        Some(if rolling { PositionStatus::Rolled } else { PositionStatus::Closed })
    } else {
        None
    }
}

/// Settles a position with status `status` (closing it, or closing it as
/// part of a roll).
pub fn settle(status: PositionStatus, rolling: bool) -> (res: Option<PositionStatus>)
    ensures
        res == settle_outcome(status, rolling),
{
    match status {
        PositionStatus::Open => if rolling {
            Some(PositionStatus::Rolled)
        } else {
            Some(PositionStatus::Closed)
        },
        _ => None,
    }
}

/// A position is settled at most once: what settling gives is in the trade
/// history, and settling it again (by a close or a roll) is refused.
pub proof fn lemma_settled_once(status: PositionStatus, rolling: bool, rolling_again: bool)
    ensures
        settle_outcome(status, rolling) matches Some(t) ==> in_history(t) && settle_outcome(t, rolling_again)
            is None,
        in_history(status) ==> settle_outcome(status, rolling) is None,
{
}

/// Stored status text and `PositionStatus` convert into each other.
pub proof fn lemma_status_text_round_trip(s: PositionStatus)
    ensures
        status_of(status_text(s)) == Some(s),
{
    reveal_strlit("open");
    reveal_strlit("closed");
    reveal_strlit("rolled");
    assert("closed"@.len() != "open"@.len());
    assert("rolled"@.len() != "open"@.len());
    assert("rolled"@[0] != "closed"@[0]);
}

/// The stored status texts are the schema's fixed words `open`, `closed`
/// and `rolled`; a position closed as part of a roll is stored as
/// `rolled`; and the trade history (`status IN ('closed', 'rolled')`) holds
/// exactly the positions whose stored text is one of those two words.
pub proof fn lemma_status_words(s: PositionStatus)
    ensures
        status_text(PositionStatus::Open) == "open"@,
        status_text(PositionStatus::Closed) == "closed"@,
        status_text(PositionStatus::Rolled) == "rolled"@,
        settle_outcome(PositionStatus::Open, true) matches Some(t) && status_text(t) == "rolled"@,
        settle_outcome(PositionStatus::Open, false) matches Some(t) && status_text(t) == "closed"@,
        in_history(s) <==> (status_text(s) == "closed"@ || status_text(s) == "rolled"@),
{
    reveal_strlit("open");
    reveal_strlit("closed");
    reveal_strlit("rolled");
    assert("closed"@.len() != "open"@.len());
    assert("rolled"@.len() != "open"@.len());
}

/// The option kinds and sides are named by exactly the words `call`,
/// `put`, `long` and `short`: those words parse to their kind and side,
/// and any other text parses to nothing.
pub proof fn lemma_leg_words(text: Seq<char>)
    ensures
        option_kind_of("call"@) == Some(OptionKind::Call),
        option_kind_of("put"@) == Some(OptionKind::Put),
        side_of("long"@) == Some(Side::Long),
        side_of("short"@) == Some(Side::Short),
        option_kind_of(text) is Some ==> (text == "call"@ || text == "put"@),
        side_of(text) is Some ==> (text == "long"@ || text == "short"@),
{
    reveal_strlit("call");
    reveal_strlit("put");
    reveal_strlit("long");
    reveal_strlit("short");
    assert("call"@.len() != "put"@.len());
    assert("long"@.len() != "short"@.len());
}

} // verus!
