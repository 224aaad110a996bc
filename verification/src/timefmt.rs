//! UTC timestamps in the RFC 3339 shape that SQLite's
//! `strftime('%Y-%m-%dT%H:%M:%fZ')` produces, computed from Unix seconds.

use vstd::prelude::*;
use crate::text::{padded_decimal, push_char, push_padded_decimal};

verus! {

/// Whether `y` is a leap year of the proleptic Gregorian calendar.
pub open spec fn is_leap_year(y: int) -> bool {
    y % 4 == 0 && (y % 100 != 0 || y % 400 == 0)
}

/// Number of days of month `m` (1..=12) of year `y`.
pub open spec fn days_in_month(y: int, m: int) -> int {
    if m == 2 {
        if is_leap_year(y) { 29 } else { 28 }
    } else if m == 4 || m == 6 || m == 9 || m == 11 {
        30
    } else {
        31
    }
}

/// Whether `y-m-d` names a day of the proleptic Gregorian calendar.
pub open spec fn is_civil_date(y: int, m: int, d: int) -> bool {
    1 <= m <= 12 && 1 <= d <= days_in_month(y, m)
}

/// Days from 1970-01-01 to the civil date `y-m-d` (negative before it):
/// years counted from March, so that the leap day ends a year, in
/// 400-year eras of 146097 days.
pub open spec fn days_from_civil(y: int, m: int, d: int) -> int {
    let y2 = if m <= 2 { y - 1 } else { y };
    let era = y2 / 400;
    let yoe = y2 - era * 400;
    let mp = if m > 2 { m - 3 } else { m + 9 };
    let doy = (153 * mp + 2) / 5 + d - 1;
    let doe = yoe * 365 + yoe / 4 - yoe / 100 + doy;
    era * 146097 + doe - 719468
}


/// Start (day of the era) of the year `yoe` of an era, as a 32-bit value.
pub open spec fn era_year_start(yoe: u32) -> u32 {
    (((365u32 * yoe) as u32 + yoe / 4u32) as u32 - yoe / 100u32) as u32
}

/// Year of the era that the day of the era `doe` falls in.
pub open spec fn era_year_of(doe: u32) -> u32 {
    ((((doe - doe / 1460u32) as u32 + doe / 36524u32) as u32 - doe / 146096u32) as u32) / 365u32
}

/// Within one 400-year era, the day of the era `doe` splits into the year
/// of the era and the day of that (March-based) year.
pub(crate) proof fn lemma_era_day_split(doe: u32, yoe: u32, start: u32)
    by (bit_vector)
    requires
        doe <= 146096u32,
        yoe == era_year_of(doe),
        start == era_year_start(yoe),
    ensures
        yoe <= 399u32,
        start <= doe,
        (doe - start) as u32 <= 365u32,
        (doe - start) as u32 == 365u32 ==> ((yoe + 1u32) as u32 % 4u32 == 0u32 && ((yoe + 1u32) as u32 % 100u32 != 0u32 || yoe == 399u32)),
{
}


/// Days in month `m` never go below 28 nor above 31, and the March-based
/// month offsets step by exactly those lengths.
pub(crate) proof fn lemma_month_of_year_day(doy: int, mp: int, d: int)
    requires
        0 <= doy <= 365,
        mp == (5 * doy + 2) / 153,
        d == doy - (153 * mp + 2) / 5 + 1,
    ensures
        0 <= mp <= 11,
        1 <= d,
        mp <= 10 ==> d <= days_in_month(0, if mp < 10 { mp + 3 } else { mp - 9 }) && d <= 31,
        mp == 11 ==> d <= 29 && (d == 29 ==> doy == 365),
{
    assert(0 <= mp <= 11);
    if mp == 0 { assert(d <= 31); }
    else if mp == 1 { assert(d <= 30); }
    else if mp == 2 { assert(d <= 31); }
    else if mp == 3 { assert(d <= 30); }
    else if mp == 4 { assert(d <= 31); }
    else if mp == 5 { assert(d <= 31); }
    else if mp == 6 { assert(d <= 30); }
    else if mp == 7 { assert(d <= 31); }
    else if mp == 8 { assert(d <= 30); }
    else if mp == 9 { assert(d <= 31); }
    else if mp == 10 { assert(d <= 31); }
    else { assert(d <= 29); }
}

/// The civil date `(year, month, day)` of the day `days` after 1970-01-01
/// (before it where negative), in the proleptic Gregorian calendar.
pub fn civil_from_days(days: i64) -> (ymd: (i64, u32, u32))
    requires
        -0x1000_0000_0000_0000i64 <= days <= 0x1000_0000_0000_0000i64,
    ensures
        is_civil_date(ymd.0 as int, ymd.1 as int, ymd.2 as int),
        days_from_civil(ymd.0 as int, ymd.1 as int, ymd.2 as int) == days as int,
{
    let z: i64 = days + 719468;
    let era: i64 = match z.checked_div_euclid(146097) {
        Some(e) => e,
        None => 0,
    };
    proof {
        vstd::arithmetic::div_mod::lemma_fundamental_div_mod(z as int, 146097);
        assert(era as int == (z as int) / 146097);
    }
    let doe_i: i64 = z - era * 146097;
    let doe: u32 = doe_i as u32;
    let yoe: u32 = (doe - doe / 1460 + doe / 36524 - doe / 146096) / 365;
    let start: u32 = 365 * yoe + yoe / 4 - yoe / 100;
    proof {
        lemma_era_day_split(doe, yoe, start);
    }
    let doy: u32 = doe - start;
    let mp: u32 = (5 * doy + 2) / 153;
    let d: u32 = doy - (153 * mp + 2) / 5 + 1;
    let m: u32 = if mp < 10 { mp + 3 } else { mp - 9 };
    let y0: i64 = (yoe as i64) + era * 400;
    let y: i64 = if m <= 2 { y0 + 1 } else { y0 };
    proof {
        let ymd = lemma_civil_date_exists(days as int);
        assert(ymd == (y as int, m as int, d as int));
    }
    (y, m, d)
}


/// The year as `{:04}` renders it: zero-padded to four characters, the sign
/// counting as one of them.
pub open spec fn year_text(y: int) -> Seq<char> {
    if y >= 0 {
        padded_decimal(y as nat, 4)
    } else {
        seq!['-'] + padded_decimal((-y) as nat, 3)
    }
}

/// `YYYY-MM-DDTHH:MM:SS.000Z` for the given civil date and time of day.
#[verifier::opaque]
pub open spec fn timestamp_text(y: int, m: nat, d: nat, hour: nat, minute: nat, second: nat) -> Seq<char> {
    year_text(y) + seq!['-'] + padded_decimal(m, 2) + seq!['-'] + padded_decimal(d, 2) + seq!['T']
        + padded_decimal(hour, 2) + seq![':'] + padded_decimal(minute, 2) + seq![':']
        + padded_decimal(second, 2) + seq!['.', '0', '0', '0', 'Z']
}

/// The civil date `(y, m, d)` whose day count from 1970-01-01 is `days`
/// (unique: `lemma_civil_date_unique`; it exists: `civil_from_days`).
pub open spec fn civil_date_of_day(days: int) -> (int, int, int) {
    choose|ymd: (int, int, int)|
        is_civil_date(ymd.0, ymd.1, ymd.2) && days_from_civil(ymd.0, ymd.1, ymd.2) == days
}

/// `YYYY-MM-DDTHH:MM:SS.000Z` for the instant `total_secs` seconds after
/// 1970-01-01T00:00:00Z.
pub open spec fn unix_timestamp_text(total_secs: int) -> Seq<char> {
    let ymd = civil_date_of_day(total_secs / 86400);
    let rem = total_secs % 86400;
    timestamp_text(ymd.0, ymd.1 as nat, ymd.2 as nat, (rem / 3600) as nat, ((rem % 3600) / 60) as nat,
        (rem % 60) as nat)
}

/// RFC 3339 UTC text (`YYYY-MM-DDTHH:MM:SS.000Z`) of the instant
/// `total_secs` seconds after the Unix epoch, the same shape as SQLite's
/// `strftime('%Y-%m-%dT%H:%M:%fZ', 'now')` at whole seconds.
pub fn format_unix_secs(total_secs: i64) -> (text: String)
    ensures
        text@ == unix_timestamp_text(total_secs as int),
{
    let days: i64 = match total_secs.checked_div_euclid(86400) {
        Some(v) => v,
        None => 0,
    };
    let rem: i64 = match total_secs.checked_rem_euclid(86400) {
        Some(v) => v,
        None => 0,
    };
    assert(days as int == total_secs as int / 86400);
    assert(rem as int == total_secs as int % 86400);
    let secs: u64 = rem as u64;
    let hour: u64 = secs / 3600;
    let minute: u64 = (secs % 3600) / 60;
    let second: u64 = secs % 60;
    let (y, m, d) = civil_from_days(days);

    let mut text = String::new();
    if y >= 0 {
        push_padded_decimal(&mut text, y as u64, 4);
    } else {
        push_char(&mut text, '-');
        push_padded_decimal(&mut text, (-y) as u64, 3);
    }
    push_char(&mut text, '-');
    push_padded_decimal(&mut text, m as u64, 2);
    push_char(&mut text, '-');
    push_padded_decimal(&mut text, d as u64, 2);
    push_char(&mut text, 'T');
    push_padded_decimal(&mut text, hour, 2);
    push_char(&mut text, ':');
    push_padded_decimal(&mut text, minute, 2);
    push_char(&mut text, ':');
    push_padded_decimal(&mut text, second, 2);
    push_char(&mut text, '.');
    push_char(&mut text, '0');
    push_char(&mut text, '0');
    push_char(&mut text, '0');
    push_char(&mut text, 'Z');
    reveal(timestamp_text);
    assert(text@ =~= timestamp_text(y as int, m as nat, d as nat, hour as nat, minute as nat, second as nat));
    proof {
        let ymd = civil_date_of_day(days as int);
        assert(is_civil_date(y as int, m as int, d as int) && days_from_civil(y as int, m as int, d as int)
            == days as int);
        lemma_civil_date_unique(ymd.0, ymd.1, ymd.2, y as int, m as int, d as int);
    }
    text
}


/// The inverse of `lemma_era_day_split`: a year of the era and a valid day
/// of that year give back the same year.
proof fn lemma_era_day_join(yoe: u32, doy: u32, doe: u32)
    by (bit_vector)
    requires
        yoe <= 399u32,
        doy <= 365u32,
        doy == 365u32 ==> ((yoe + 1u32) as u32 % 4u32 == 0u32 && ((yoe + 1u32) as u32 % 100u32 != 0u32 || yoe == 399u32)),
        doe == (era_year_start(yoe) + doy) as u32,
    ensures
        doe <= 146096u32,
        era_year_of(doe) == yoe,
{
}

/// A March-based month offset `mp` and a valid day `d` give a day of the
/// year from which `mp` is recovered.
proof fn lemma_year_day_of_month(mp: int, d: int, leap: bool)
    requires
        0 <= mp <= 11,
        1 <= d,
        mp < 11 ==> d <= days_in_month(0, if mp < 10 { mp + 3 } else { mp - 9 }),
        mp == 11 ==> d <= (if leap { 29int } else { 28int }),
    ensures
        ({
            let doy = (153 * mp + 2) / 5 + d - 1;
            &&& 0 <= doy <= 365
            &&& (5 * doy + 2) / 153 == mp
            &&& (doy == 365 ==> mp == 11 && d == 29)
        }),
{
    if mp == 0 { } else if mp == 1 { } else if mp == 2 { } else if mp == 3 { }
    else if mp == 4 { } else if mp == 5 { } else if mp == 6 { } else if mp == 7 { }
    else if mp == 8 { } else if mp == 9 { } else if mp == 10 { } else { }
}

/// The parts of `days_from_civil` for a valid date: its 400-year era, the
/// year of the era, the March-based day of that year, and the day of the
/// era that they add up to.
pub(crate) proof fn lemma_civil_parts(y: int, m: int, d: int) -> (parts: (int, int, int))
    requires
        is_civil_date(y, m, d),
    ensures
        ({
            let (era, yoe, doy) = parts;
            let doe = yoe * 365 + yoe / 4 - yoe / 100 + doy;
            &&& 0 <= yoe <= 399
            &&& 0 <= doy <= 365
            &&& 0 <= doe <= 146096
            &&& days_from_civil(y, m, d) == era * 146097 + doe - 719468
            &&& era_year_of(doe as u32) as int == yoe
            &&& doe - (yoe * 365 + yoe / 4 - yoe / 100) == doy
            &&& (5 * doy + 2) / 153 == (if m > 2 { m - 3 } else { m + 9 })
            &&& (if m <= 2 { y - 1 } else { y }) == era * 400 + yoe
            &&& d == doy - (153 * ((5 * doy + 2) / 153) + 2) / 5 + 1
            &&& doy == (153 * (if m > 2 { m - 3 } else { m + 9 }) + 2) / 5 + d - 1
            &&& (doy == 365 ==> (yoe + 1) % 4 == 0 && ((yoe + 1) % 100 != 0 || yoe == 399))
        }),
{
    let y2 = if m <= 2 { y - 1 } else { y };
    let era = y2 / 400;
    let yoe = y2 - era * 400;
    vstd::arithmetic::div_mod::lemma_fundamental_div_mod(y2, 400);
    assert(0 <= yoe <= 399);
    let mp = if m > 2 { m - 3 } else { m + 9 };
    let r = yoe + 1;
    if m == 2 && d == 29 {
        assert(is_leap_year(y));
        assert(y == 4 * (100 * era) + r);
        assert(y == 100 * (4 * era) + r);
        assert(y == 400 * era + r);
        vstd::arithmetic::div_mod::lemma_mod_multiples_vanish(100 * era, r, 4);
        vstd::arithmetic::div_mod::lemma_mod_multiples_vanish(4 * era, r, 100);
        vstd::arithmetic::div_mod::lemma_mod_multiples_vanish(era, r, 400);
        assert(r % 4 == 0);
        assert(r % 100 != 0 || r == 400);
    }
    lemma_year_day_of_month(mp, d, m == 2 && is_leap_year(y));
    let doy = (153 * mp + 2) / 5 + d - 1;
    let doe_u: u32 = (era_year_start(yoe as u32) + doy as u32) as u32;
    lemma_era_day_join(yoe as u32, doy as u32, doe_u);
    assert(era_year_start(yoe as u32) as int == yoe * 365 + yoe / 4 - yoe / 100);
    (era, yoe, doy)
}

/// Distinct civil dates have distinct day counts: the civil date of a day
/// count is unique.
pub proof fn lemma_civil_date_unique(y1: int, m1: int, d1: int, y2: int, m2: int, d2: int)
    requires
        is_civil_date(y1, m1, d1),
        is_civil_date(y2, m2, d2),
        days_from_civil(y1, m1, d1) == days_from_civil(y2, m2, d2),
    ensures
        y1 == y2,
        m1 == m2,
        d1 == d2,
{
    let (e1, yoe1, doy1) = lemma_civil_parts(y1, m1, d1);
    let (e2, yoe2, doy2) = lemma_civil_parts(y2, m2, d2);
    let doe1 = yoe1 * 365 + yoe1 / 4 - yoe1 / 100 + doy1;
    let doe2 = yoe2 * 365 + yoe2 / 4 - yoe2 / 100 + doy2;
    let x = e1 * 146097 + doe1;
    assert(x == e2 * 146097 + doe2);
    vstd::arithmetic::div_mod::lemma_fundamental_div_mod_converse(x, 146097, e1, doe1);
    vstd::arithmetic::div_mod::lemma_fundamental_div_mod_converse(x, 146097, e2, doe2);
    assert(doe1 == doe2);
    assert(yoe1 == yoe2);
    assert(doy1 == doy2);
}

/// The civil date of a day count by the era arithmetic: the 400-year era
/// and the day in it, the March-based year and day of that year, then the
/// month and day of the month.
pub open spec fn civil_date_formula(days: int) -> (int, int, int) {
    let z = days + 719468;
    let era = z / 146097;
    let doe = z - era * 146097;
    let yoe = era_year_of(doe as u32) as int;
    let doy = doe - era_year_start(yoe as u32) as int;
    let mp = (5 * doy + 2) / 153;
    let d = doy - (153 * mp + 2) / 5 + 1;
    let m = if mp < 10 { mp + 3 } else { mp - 9 };
    let y0 = yoe + era * 400;
    (if m <= 2 { y0 + 1 } else { y0 }, m, d)
}

/// Every day count has a civil date: the one the era arithmetic gives.
pub proof fn lemma_civil_date_exists(days: int) -> (ymd: (int, int, int))
    ensures
        ymd == civil_date_formula(days),
        is_civil_date(ymd.0, ymd.1, ymd.2),
        days_from_civil(ymd.0, ymd.1, ymd.2) == days,
{
    let z = days + 719468;
    let era = z / 146097;
    vstd::arithmetic::div_mod::lemma_fundamental_div_mod(z, 146097);
    let doe = z - era * 146097;
    assert(0 <= doe < 146097);
    let doe_u = doe as u32;
    let yoe_u = era_year_of(doe_u);
    let start_u = era_year_start(yoe_u);
    lemma_era_day_split(doe_u, yoe_u, start_u);
    let yoe = yoe_u as int;
    let doy = doe - start_u as int;
    let mp = (5 * doy + 2) / 153;
    let d = doy - (153 * mp + 2) / 5 + 1;
    let m = if mp < 10 { mp + 3 } else { mp - 9 };
    let y0 = yoe + era * 400;
    let y = if m <= 2 { y0 + 1 } else { y0 };
    lemma_month_of_year_day(doy, mp, d);
    vstd::arithmetic::div_mod::lemma_fundamental_div_mod_converse(y0, 400, era, yoe);
    assert(start_u as int == yoe * 365 + yoe / 4 - yoe / 100);
    if mp == 11 && d == 29 {
        let r = yoe + 1;
        assert(y == 4 * (100 * era) + r);
        assert(y == 100 * (4 * era) + r);
        assert(y == 400 * era + r);
        vstd::arithmetic::div_mod::lemma_mod_multiples_vanish(100 * era, r, 4);
        vstd::arithmetic::div_mod::lemma_mod_multiples_vanish(4 * era, r, 100);
        vstd::arithmetic::div_mod::lemma_mod_multiples_vanish(era, r, 400);
        assert(is_leap_year(y));
    }
    (y, m, d)
}

/// The civil date of a day count is one whose day count it is.
pub proof fn lemma_civil_date_of_day(days: int)
    ensures
        ({
            let ymd = civil_date_of_day(days);
            is_civil_date(ymd.0, ymd.1, ymd.2) && days_from_civil(ymd.0, ymd.1, ymd.2) == days
        }),
{
    let w = lemma_civil_date_exists(days);
    assert(is_civil_date(w.0, w.1, w.2) && days_from_civil(w.0, w.1, w.2) == days);
}

} // verus!
