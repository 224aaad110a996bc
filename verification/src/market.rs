//! The expiry calendar offered for every underlying.

use vstd::prelude::*;
use crate::text::{decimal_text, push_char, push_decimal};

verus! {

/// Seconds in a day.
pub const SECS_PER_DAY: u64 = 86400u64;

/// The days-to-expiry that the calendar lists, in order.
pub open spec fn listed_expiry_days() -> Seq<u32> {
    seq![7u32, 14u32, 21u32, 30u32, 60u32, 90u32, 180u32]
}

/// One expiry of the calendar.
pub struct ExpiryInfo {
    pub days_to_expiry: u32,
    pub label: String,
    pub timestamp: u64,
}

/// The label of an expiry `days` away, such as `"30D"`.
pub open spec fn expiry_label(days: nat) -> Seq<char> {
    decimal_text(days).push('D')
}

/// The calendar at Unix time `now`: one entry per listed expiry, labelled
/// with its days and stamped `days * 86400` seconds after `now`.
pub fn expiry_calendar(now: u64) -> (entries: Vec<ExpiryInfo>)
    requires
        now + 180 * 86400 <= u64::MAX,
    ensures
        entries@.len() == listed_expiry_days().len(),
        forall|i: int|
            0 <= i < entries@.len() ==> {
                let days = listed_expiry_days()[i];
                &&& (#[trigger] entries@[i]).days_to_expiry == days
                &&& entries@[i].label@ == expiry_label(days as nat)
                &&& entries@[i].timestamp == now + days * SECS_PER_DAY
            },
{
    let days_list: [u32; 7] = [7u32, 14, 21, 30, 60, 90, 180];
    assert(days_list@ == listed_expiry_days());
    let mut entries: Vec<ExpiryInfo> = Vec::new();
    let mut i: usize = 0;
    while i < 7
        invariant
            i <= 7,
            days_list@ == listed_expiry_days(),
            now + 180 * 86400 <= u64::MAX,
            entries@.len() == i,
            forall|j: int|
                0 <= j < i ==> {
                    let days = listed_expiry_days()[j];
                    &&& (#[trigger] entries@[j]).days_to_expiry == days
                    &&& entries@[j].label@ == expiry_label(days as nat)
                    &&& entries@[j].timestamp == now + days * SECS_PER_DAY
                },
        decreases 7 - i,
    {
        let days = days_list[i];
        assert(days <= 180);
        let mut label = String::new();
        push_decimal(&mut label, days as u64);
        push_char(&mut label, 'D');
        let timestamp = now + (days as u64) * SECS_PER_DAY;
        entries.push(ExpiryInfo { days_to_expiry: days, label, timestamp });
        i = i + 1;
    }
    entries
}

} // verus!
