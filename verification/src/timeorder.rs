//! Timestamps sort like the instants they name: the expiry checks of
//! sign-in nonces and sessions compare timestamps as text, which is sound
//! because text order and time order agree.

use vstd::prelude::*;
use crate::text::{decimal_text, digit_char, padded_decimal, text_lt};
use crate::timefmt::{
    civil_date_of_day, days_from_civil, era_year_start, is_civil_date, lemma_civil_date_of_day, lemma_civil_date_unique,
    lemma_civil_parts, timestamp_text, unix_timestamp_text, year_text,
};

verus! {

/// Lexicographic order of civil dates.
pub open spec fn date_before(y1: int, m1: int, d1: int, y2: int, m2: int, d2: int) -> bool {
    y1 < y2 || (y1 == y2 && (m1 < m2 || (m1 == m2 && d1 < d2)))
}

/// Years of an era start in order, each after the last day of the
/// previous one.
proof fn lemma_era_years_ordered(yoe1: u32, yoe2: u32, doy1: u32)
    by (bit_vector)
    requires
        yoe1 < yoe2,
        yoe2 <= 399u32,
        doy1 <= 365u32,
        doy1 == 365u32 ==> ((yoe1 + 1u32) as u32 % 4u32 == 0u32 && ((yoe1 + 1u32) as u32 % 100u32 != 0u32 || yoe1 == 399u32)),
    ensures
        (era_year_start(yoe1) + doy1) < era_year_start(yoe2),
{
}

/// Within a March-based year, days are numbered in (month, day) order.
proof fn lemma_year_days_ordered(mp1: int, d1: int, mp2: int, d2: int)
    requires
        0 <= mp1 <= 11,
        0 <= mp2 <= 11,
        1 <= d1,
        1 <= d2,
        mp1 < 11 ==> d1 <= crate::timefmt::days_in_month(0, if mp1 < 10 { mp1 + 3 } else { mp1 - 9 }),
        mp1 < mp2 || (mp1 == mp2 && d1 < d2),
    ensures
        (153 * mp1 + 2) / 5 + d1 - 1 < (153 * mp2 + 2) / 5 + d2 - 1,
{
    if mp1 < mp2 {
        let next = mp1 + 1;
        assert((153 * mp1 + 2) / 5 + d1 <= (153 * next + 2) / 5) by {
            if mp1 == 0 { } else if mp1 == 1 { } else if mp1 == 2 { } else if mp1 == 3 { }
            else if mp1 == 4 { } else if mp1 == 5 { } else if mp1 == 6 { } else if mp1 == 7 { }
            else if mp1 == 8 { } else if mp1 == 9 { } else { }
        }
        vstd::arithmetic::div_mod::lemma_div_is_ordered(153 * next + 2, 153 * mp2 + 2, 5);
    }
}

/// Later civil dates have larger day counts.
pub proof fn lemma_days_from_civil_increasing(y1: int, m1: int, d1: int, y2: int, m2: int, d2: int)
    requires
        is_civil_date(y1, m1, d1),
        is_civil_date(y2, m2, d2),
        date_before(y1, m1, d1, y2, m2, d2),
    ensures
        days_from_civil(y1, m1, d1) < days_from_civil(y2, m2, d2),
{
    let (e1, yoe1, doy1) = lemma_civil_parts(y1, m1, d1);
    let (e2, yoe2, doy2) = lemma_civil_parts(y2, m2, d2);
    let mp1 = if m1 > 2 { m1 - 3 } else { m1 + 9 };
    let mp2 = if m2 > 2 { m2 - 3 } else { m2 + 9 };
    let ya = if m1 <= 2 { y1 - 1 } else { y1 };
    let yb = if m2 <= 2 { y2 - 1 } else { y2 };
    // Moving January and February to the end of the previous year keeps
    // the order of dates.
    assert(ya < yb || (ya == yb && (mp1 < mp2 || (mp1 == mp2 && d1 < d2))));
    let doe1 = yoe1 * 365 + yoe1 / 4 - yoe1 / 100 + doy1;
    let doe2 = yoe2 * 365 + yoe2 / 4 - yoe2 / 100 + doy2;
    assert(era_year_start(yoe1 as u32) as int == yoe1 * 365 + yoe1 / 4 - yoe1 / 100);
    assert(era_year_start(yoe2 as u32) as int == yoe2 * 365 + yoe2 / 4 - yoe2 / 100);
    if e1 < e2 {
        assert(e1 * 146097 + 146097 <= e2 * 146097);
    } else if e1 == e2 {
        if yoe1 < yoe2 {
            lemma_era_years_ordered(yoe1 as u32, yoe2 as u32, doy1 as u32);
        } else {
            assert(yoe1 == yoe2);
            lemma_year_days_ordered(mp1, d1, mp2, d2);
        }
    } else {
        assert(false);
    }
}

/// Comparing texts that start with pieces of equal length: the first
/// pieces decide unless they are equal.
pub proof fn lemma_text_lt_concat(x: Seq<char>, y: Seq<char>, x2: Seq<char>, y2: Seq<char>)
    requires
        x.len() == x2.len(),
    ensures
        text_lt(x + y, x2 + y2) == (if x == x2 { text_lt(y, y2) } else { text_lt(x, x2) }),
    decreases x.len(),
{
    if x.len() == 0 {
        assert(x + y =~= y);
        assert(x2 + y2 =~= y2);
        assert(x =~= x2);
    } else {
        assert((x + y)[0] == x[0]);
        assert((x2 + y2)[0] == x2[0]);
        assert((x + y).drop_first() =~= x.drop_first() + y);
        assert((x2 + y2).drop_first() =~= x2.drop_first() + y2);
        lemma_text_lt_concat(x.drop_first(), y, x2.drop_first(), y2);
        if x[0] == x2[0] {
            if x.drop_first() == x2.drop_first() {
                assert forall|i: int| 0 <= i < x.len() implies x[i] == x2[i] by {
                    if i > 0 {
                        assert(x[i] == x.drop_first()[i - 1]);
                        assert(x2[i] == x2.drop_first()[i - 1]);
                    }
                }
                assert(x =~= x2);
            } else {
                assert(x != x2);
            }
        } else {
            assert(x != x2);
        }
    }
}

/// No text is before itself.
pub proof fn lemma_text_lt_irreflexive(s: Seq<char>)
    ensures
        !text_lt(s, s),
    decreases s.len(),
{
    if s.len() > 0 {
        lemma_text_lt_irreflexive(s.drop_first());
    }
}

/// Of two distinct texts of equal length, exactly one is before the other.
pub proof fn lemma_text_lt_total(s: Seq<char>, t: Seq<char>)
    requires
        s.len() == t.len(),
    ensures
        s != t ==> (text_lt(s, t) != text_lt(t, s)),
        s == t ==> !text_lt(s, t),
    decreases s.len(),
{
    lemma_text_lt_irreflexive(s);
    if s.len() > 0 {
        lemma_text_lt_total(s.drop_first(), t.drop_first());

        if s[0] == t[0] && s.drop_first() == t.drop_first() {
            assert forall|i: int| 0 <= i < s.len() implies s[i] == t[i] by {
                if i > 0 {
                    assert(s[i] == s.drop_first()[i - 1]);
                    assert(t[i] == t.drop_first()[i - 1]);
                }
            }
            assert(s =~= t);
        }
    } else {
        assert(s =~= t);
    }
}

/// Two decimal digits of a value below 100.
pub open spec fn two_digits(n: nat) -> Seq<char> {
    seq![digit_char(n / 10), digit_char(n % 10)]
}

/// Four decimal digits of a value below 10000.
pub open spec fn four_digits(n: nat) -> Seq<char> {
    seq![digit_char(n / 1000), digit_char((n / 100) % 10), digit_char((n / 10) % 10), digit_char(n % 10)]
}

proof fn lemma_padded_two(n: nat)
    requires
        n < 100,
    ensures
        padded_decimal(n, 2) == two_digits(n),
{
    reveal_with_fuel(decimal_text, 3);
    if n < 10 {
        assert(padded_decimal(n, 2) =~= two_digits(n));
    } else {
        assert(decimal_text(n / 10) == seq![digit_char(n / 10)]);
        assert(padded_decimal(n, 2) =~= two_digits(n));
    }
}

proof fn lemma_padded_four(n: nat)
    requires
        n < 10000,
    ensures
        padded_decimal(n, 4) == four_digits(n),
{
    reveal_with_fuel(decimal_text, 5);
    if n < 10 {
        assert(padded_decimal(n, 4) =~= four_digits(n));
    } else if n < 100 {
        assert(decimal_text(n / 10) == seq![digit_char(n / 10)]);
        assert(padded_decimal(n, 4) =~= four_digits(n));
    } else if n < 1000 {
        assert(decimal_text(n / 100) == seq![digit_char(n / 100)]);
        assert(decimal_text(n / 10) == seq![digit_char(n / 100), digit_char((n / 10) % 10)]);
        assert(padded_decimal(n, 4) =~= four_digits(n));
    } else {
        assert(decimal_text(n / 1000) == seq![digit_char(n / 1000)]);
        assert(decimal_text(n / 100) == seq![digit_char(n / 1000), digit_char((n / 100) % 10)]);
        assert(decimal_text(n / 10) == seq![digit_char(n / 1000), digit_char((n / 100) % 10), digit_char((n / 10) % 10)]);
        assert(padded_decimal(n, 4) =~= four_digits(n));
    }
}

/// Splitting a value below 100 into its two digits.
proof fn lemma_split_two(a: u32, b: u32)
    by (bit_vector)
    requires
        a < 100u32,
        b < 100u32,
    ensures
        a / 10u32 < 10u32,
        (a < b) == (a / 10u32 < b / 10u32 || (a / 10u32 == b / 10u32 && a % 10u32 < b % 10u32)),
        (a == b) == (a / 10u32 == b / 10u32 && a % 10u32 == b % 10u32),
{
}

/// Splitting a value below 10000 into two halves of two digits.
proof fn lemma_split_four(a: u32, b: u32)
    by (bit_vector)
    requires
        a < 10000u32,
        b < 10000u32,
    ensures
        a / 100u32 < 100u32,
        (a / 100u32) / 10u32 == a / 1000u32,
        (a / 100u32) % 10u32 == (a / 100u32) % 10u32,
        (a % 100u32) / 10u32 == (a / 10u32) % 10u32,
        (a % 100u32) % 10u32 == a % 10u32,
        (a < b) == (a / 100u32 < b / 100u32 || (a / 100u32 == b / 100u32 && a % 100u32 < b % 100u32)),
        (a == b) == (a / 100u32 == b / 100u32 && a % 100u32 == b % 100u32),
{
}

/// Comparing single digits.
proof fn lemma_digit_lt(a: nat, b: nat)
    requires
        a < 10,
        b < 10,
    ensures
        text_lt(seq![digit_char(a)], seq![digit_char(b)]) == (a < b),
        (seq![digit_char(a)] == seq![digit_char(b)]) == (a == b),
{
    assert(seq![digit_char(a)].drop_first() =~= Seq::<char>::empty());
    assert(seq![digit_char(b)].drop_first() =~= Seq::<char>::empty());
    if a == b {
        lemma_text_lt_irreflexive(seq![digit_char(a)]);
    } else {
        assert(seq![digit_char(a)][0] != seq![digit_char(b)][0]);
    }
}

/// Two-digit texts compare like their values.
proof fn lemma_two_digits_order(a: nat, b: nat)
    requires
        a < 100,
        b < 100,
    ensures
        text_lt(two_digits(a), two_digits(b)) == (a < b),
        (two_digits(a) == two_digits(b)) == (a == b),
{
    assert(two_digits(a) =~= seq![digit_char(a / 10)] + seq![digit_char(a % 10)]);
    assert(two_digits(b) =~= seq![digit_char(b / 10)] + seq![digit_char(b % 10)]);
    lemma_text_lt_concat(seq![digit_char(a / 10)], seq![digit_char(a % 10)], seq![digit_char(b / 10)], seq![digit_char(b % 10)]);
    lemma_split_two(a as u32, b as u32);
    lemma_digit_lt(a / 10, b / 10);
    lemma_digit_lt(a % 10, b % 10);
    if two_digits(a) == two_digits(b) {
        assert(two_digits(a)[0] == two_digits(b)[0]);
        assert(two_digits(a)[1] == two_digits(b)[1]);
    }
}

/// Four-digit texts compare like their values.
proof fn lemma_four_digits_order(a: nat, b: nat)
    requires
        a < 10000,
        b < 10000,
    ensures
        text_lt(four_digits(a), four_digits(b)) == (a < b),
        (four_digits(a) == four_digits(b)) == (a == b),
{
    lemma_split_four(a as u32, b as u32);
    lemma_split_four(b as u32, a as u32);
    let ha = two_digits(a / 100);
    let hb = two_digits(b / 100);
    let la = two_digits(a % 100);
    let lb = two_digits(b % 100);
    assert(four_digits(a) =~= ha + la);
    assert(four_digits(b) =~= hb + lb);
    lemma_text_lt_concat(ha, la, hb, lb);
    lemma_two_digits_order(a / 100, b / 100);
    lemma_two_digits_order(a % 100, b % 100);
    if four_digits(a) == four_digits(b) {
        assert((ha + la).subrange(0, 2) =~= ha);
        assert((hb + lb).subrange(0, 2) =~= hb);
        assert((ha + la).subrange(2, 4) =~= la);
        assert((hb + lb).subrange(2, 4) =~= lb);
    }
}

/// The timestamp text of a year in `0..=9999`, nested to the right piece
/// by piece.
#[verifier::opaque]
pub open spec fn stamp_pieces(y: nat, m: nat, d: nat, h: nat, mi: nat, sec: nat) -> Seq<char> {
    four_digits(y) + (seq!['-'] + (two_digits(m) + (seq!['-'] + (two_digits(d) + (seq!['T'] + (two_digits(h)
        + (seq![':'] + (two_digits(mi) + (seq![':'] + (two_digits(sec) + seq!['.', '0', '0', '0', 'Z']))))))))))
}

#[verifier::rlimit(60)]
proof fn lemma_timestamp_pieces(y: nat, m: nat, d: nat, h: nat, mi: nat, sec: nat)
    requires
        y < 10000,
        m < 100,
        d < 100,
        h < 100,
        mi < 100,
        sec < 100,
    ensures
        timestamp_text(y as int, m, d, h, mi, sec) == stamp_pieces(y, m, d, h, mi, sec),
        stamp_pieces(y, m, d, h, mi, sec).len() == 24,
{
    lemma_padded_four(y);
    lemma_padded_two(m);
    lemma_padded_two(d);
    lemma_padded_two(h);
    lemma_padded_two(mi);
    lemma_padded_two(sec);
    assert(year_text(y as int) == four_digits(y));
    let l = four_digits(y) + seq!['-'] + two_digits(m) + seq!['-'] + two_digits(d) + seq!['T'] + two_digits(h)
        + seq![':'] + two_digits(mi) + seq![':'] + two_digits(sec) + seq!['.', '0', '0', '0', 'Z'];
    assert(timestamp_text(y as int, m, d, h, mi, sec) == l) by {
        reveal(timestamp_text);
    }
    assert(l =~= stamp_pieces(y, m, d, h, mi, sec)) by {
        reveal(stamp_pieces);
    }
}

/// Lexicographic order of (year, month, day, hour, minute, second).
pub open spec fn stamp_before(a: (nat, nat, nat, nat, nat, nat), b: (nat, nat, nat, nat, nat, nat)) -> bool {
    a.0 < b.0 || (a.0 == b.0 && (a.1 < b.1 || (a.1 == b.1 && (a.2 < b.2 || (a.2 == b.2 && (a.3 < b.3 || (a.3
        == b.3 && (a.4 < b.4 || (a.4 == b.4 && a.5 < b.5)))))))))
}

/// Timestamp texts compare like their fields, taken in order.
proof fn lemma_stamp_order(a: (nat, nat, nat, nat, nat, nat), b: (nat, nat, nat, nat, nat, nat))
    requires
        a.0 < 10000,
        b.0 < 10000,
        a.1 < 100,
        b.1 < 100,
        a.2 < 100,
        b.2 < 100,
        a.3 < 100,
        b.3 < 100,
        a.4 < 100,
        b.4 < 100,
        a.5 < 100,
        b.5 < 100,
    ensures
        text_lt(stamp_pieces(a.0, a.1, a.2, a.3, a.4, a.5), stamp_pieces(b.0, b.1, b.2, b.3, b.4, b.5))
            == stamp_before(a, b),
{
    reveal(stamp_pieces);
    let tail = seq!['.', '0', '0', '0', 'Z'];
    let r6a = two_digits(a.5) + tail;
    let r6b = two_digits(b.5) + tail;
    let r5a = seq![':'] + r6a;
    let r5b = seq![':'] + r6b;
    let r4a = two_digits(a.4) + r5a;
    let r4b = two_digits(b.4) + r5b;
    let r3a = seq![':'] + r4a;
    let r3b = seq![':'] + r4b;
    let r2a = two_digits(a.3) + r3a;
    let r2b = two_digits(b.3) + r3b;
    let q3a = seq!['T'] + r2a;
    let q3b = seq!['T'] + r2b;
    let q2a = two_digits(a.2) + q3a;
    let q2b = two_digits(b.2) + q3b;
    let q1a = seq!['-'] + q2a;
    let q1b = seq!['-'] + q2b;
    let p1a = two_digits(a.1) + q1a;
    let p1b = two_digits(b.1) + q1b;
    let p0a = seq!['-'] + p1a;
    let p0b = seq!['-'] + p1b;
    lemma_four_digits_order(a.0, b.0);
    lemma_two_digits_order(a.1, b.1);
    lemma_two_digits_order(a.2, b.2);
    lemma_two_digits_order(a.3, b.3);
    lemma_two_digits_order(a.4, b.4);
    lemma_two_digits_order(a.5, b.5);
    lemma_text_lt_concat(four_digits(a.0), p0a, four_digits(b.0), p0b);
    lemma_text_lt_concat(seq!['-'], p1a, seq!['-'], p1b);
    lemma_text_lt_concat(two_digits(a.1), q1a, two_digits(b.1), q1b);
    lemma_text_lt_concat(seq!['-'], q2a, seq!['-'], q2b);
    lemma_text_lt_concat(two_digits(a.2), q3a, two_digits(b.2), q3b);
    lemma_text_lt_concat(seq!['T'], r2a, seq!['T'], r2b);
    lemma_text_lt_concat(two_digits(a.3), r3a, two_digits(b.3), r3b);
    lemma_text_lt_concat(seq![':'], r4a, seq![':'], r4b);
    lemma_text_lt_concat(two_digits(a.4), r5a, two_digits(b.4), r5b);
    lemma_text_lt_concat(seq![':'], r6a, seq![':'], r6b);
    lemma_text_lt_concat(two_digits(a.5), tail, two_digits(b.5), tail);
    lemma_text_lt_irreflexive(tail);
}

/// Splitting seconds of a day into hour, minute and second keeps order.
proof fn lemma_time_of_day_order(a: int, b: int)
    requires
        0 <= a < 86400,
        0 <= b < 86400,
    ensures
        a / 3600 < 24,
        (a % 3600) / 60 < 60,
        a % 60 < 60,
        (a < b) == (a / 3600 < b / 3600 || (a / 3600 == b / 3600 && ((a % 3600) / 60 < (b % 3600) / 60 || ((a
            % 3600) / 60 == (b % 3600) / 60 && a % 60 < b % 60)))),
{
    vstd::arithmetic::div_mod::lemma_fundamental_div_mod(a, 3600);
    vstd::arithmetic::div_mod::lemma_fundamental_div_mod(b, 3600);
    vstd::arithmetic::div_mod::lemma_mod_pos_bound(a, 3600);
    vstd::arithmetic::div_mod::lemma_mod_pos_bound(b, 3600);
    vstd::arithmetic::div_mod::lemma_fundamental_div_mod(a % 3600, 60);
    vstd::arithmetic::div_mod::lemma_fundamental_div_mod(b % 3600, 60);
    vstd::arithmetic::div_mod::lemma_mod_pos_bound(a % 3600, 60);
    vstd::arithmetic::div_mod::lemma_mod_pos_bound(b % 3600, 60);
    vstd::arithmetic::div_mod::lemma_mod_mod(a, 60, 60);
    vstd::arithmetic::div_mod::lemma_mod_mod(b, 60, 60);
    assert(60 * 60 == 3600);
}

/// The fields of the timestamp of `secs`.
pub open spec fn stamp_fields(secs: int) -> (nat, nat, nat, nat, nat, nat) {
    let ymd = civil_date_of_day(secs / 86400);
    let rem = secs % 86400;
    (ymd.0 as nat, ymd.1 as nat, ymd.2 as nat, (rem / 3600) as nat, ((rem % 3600) / 60) as nat, (rem % 60) as nat)
}

/// First instant of year 0 (0000-01-01T00:00:00Z).
pub open spec fn first_four_digit_year_secs() -> int {
    -62167219200
}

/// First instant of year 10000 (10000-01-01T00:00:00Z).
pub open spec fn past_four_digit_years_secs() -> int {
    253402300800
}

proof fn lemma_stamp_fields_in_range(secs: int)
    requires
        first_four_digit_year_secs() <= secs < past_four_digit_years_secs(),
    ensures
        ({
            let f = stamp_fields(secs);
            let ymd = civil_date_of_day(secs / 86400);
            &&& 0 <= ymd.0 <= 9999
            &&& f.0 < 10000 && f.1 < 100 && f.2 < 100 && f.3 < 100 && f.4 < 100 && f.5 < 100
            &&& f.0 == ymd.0 && f.1 == ymd.1 && f.2 == ymd.2
            &&& unix_timestamp_text(secs) == stamp_pieces(f.0, f.1, f.2, f.3, f.4, f.5)
            &&& unix_timestamp_text(secs).len() == 24
        }),
{
    let days = secs / 86400;
    let rem = secs % 86400;
    lemma_civil_date_of_day(days);
    let ymd = civil_date_of_day(days);
    assert(-719528 <= days <= 2932896);
    assert(days_from_civil(0, 1, 1) == -719528);
    assert(days_from_civil(9999, 12, 31) == 2932896);
    if ymd.0 < 0 {
        lemma_days_from_civil_increasing(ymd.0, ymd.1, ymd.2, 0, 1, 1);
    }
    if ymd.0 > 9999 {
        lemma_days_from_civil_increasing(9999, 12, 31, ymd.0, ymd.1, ymd.2);
    }
    vstd::arithmetic::div_mod::lemma_mod_pos_bound(secs - days * 86400 + 86400 * days - 86400 * days, 86400);
    lemma_time_of_day_order(rem, rem);
    let f = stamp_fields(secs);
    lemma_timestamp_pieces(f.0, f.1, f.2, f.3, f.4, f.5);
}

/// The timestamp of an instant in the years 0000 through 9999 is exactly
/// 24 characters long (`YYYY-MM-DDTHH:MM:SS.000Z`).
pub proof fn lemma_timestamp_text_len(secs: int)
    requires
        first_four_digit_year_secs() <= secs < past_four_digit_years_secs(),
    ensures
        unix_timestamp_text(secs).len() == 24,
{
    lemma_stamp_fields_in_range(secs);
}

/// An earlier instant has earlier timestamp fields.
proof fn lemma_earlier_instant_earlier_fields(a: int, b: int)
    requires
        first_four_digit_year_secs() <= a < b,
        b < past_four_digit_years_secs(),
    ensures
        stamp_before(stamp_fields(a), stamp_fields(b)),
{
    lemma_stamp_fields_in_range(a);
    lemma_stamp_fields_in_range(b);
    let fa = stamp_fields(a);
    let fb = stamp_fields(b);
    let da = a / 86400;
    let db = b / 86400;
    let ra = a % 86400;
    let rb = b % 86400;
    vstd::arithmetic::div_mod::lemma_fundamental_div_mod(a, 86400);
    vstd::arithmetic::div_mod::lemma_fundamental_div_mod(b, 86400);
    vstd::arithmetic::div_mod::lemma_div_is_ordered(a, b, 86400);
    lemma_civil_date_of_day(da);
    lemma_civil_date_of_day(db);
    let ya = civil_date_of_day(da);
    let yb = civil_date_of_day(db);
    if da < db {
        if date_before(yb.0, yb.1, yb.2, ya.0, ya.1, ya.2) {
            lemma_days_from_civil_increasing(yb.0, yb.1, yb.2, ya.0, ya.1, ya.2);
        } else if !date_before(ya.0, ya.1, ya.2, yb.0, yb.1, yb.2) {
            assert(ya == yb);
        }
    } else {
        assert(da == db);
        assert(ra < rb);
        lemma_time_of_day_order(ra, rb);
    }
}

/// Timestamps of four-digit years sort as text exactly as the instants they
/// name sort in time: `a`'s text is before `b`'s text iff `a < b`. The
/// expiry checks (`is_expired`) compare stored timestamps as text, and this
/// is what makes that comparison a comparison of instants.
pub proof fn lemma_timestamps_sort_like_instants(a: int, b: int)
    requires
        first_four_digit_year_secs() <= a < past_four_digit_years_secs(),
        first_four_digit_year_secs() <= b < past_four_digit_years_secs(),
    ensures
        text_lt(unix_timestamp_text(a), unix_timestamp_text(b)) == (a < b),
        (unix_timestamp_text(a) == unix_timestamp_text(b)) == (a == b),
{
    lemma_stamp_fields_in_range(a);
    lemma_stamp_fields_in_range(b);
    let fa = stamp_fields(a);
    let fb = stamp_fields(b);
    let ta = unix_timestamp_text(a);
    let tb = unix_timestamp_text(b);
    lemma_stamp_order(fa, fb);
    lemma_stamp_order(fb, fa);
    lemma_text_lt_total(ta, tb);
    lemma_text_lt_irreflexive(ta);
    if a < b {
        lemma_earlier_instant_earlier_fields(a, b);
    } else if b < a {
        lemma_earlier_instant_earlier_fields(b, a);
    }
}

} // verus!
