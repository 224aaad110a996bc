use zenith_backend::timefmt::{civil_from_days, format_unix_secs};

#[test]
fn formats_the_epoch() {
    assert_eq!(format_unix_secs(0), "1970-01-01T00:00:00.000Z");
}

#[test]
fn formats_leap_days_and_times_of_day() {
    assert_eq!(format_unix_secs(951_782_400), "2000-02-29T00:00:00.000Z");
    assert_eq!(format_unix_secs(1_709_251_199), "2024-02-29T23:59:59.000Z");
    assert_eq!(format_unix_secs(1_700_000_000), "2023-11-14T22:13:20.000Z");
    assert_eq!(format_unix_secs(4_107_542_400), "2100-03-01T00:00:00.000Z");
}

#[test]
fn formats_instants_before_the_epoch() {
    assert_eq!(format_unix_secs(-1), "1969-12-31T23:59:59.000Z");
    assert_eq!(format_unix_secs(-62_135_596_800), "0001-01-01T00:00:00.000Z");
    assert_eq!(format_unix_secs(-62_135_596_801), "0000-12-31T23:59:59.000Z");
    assert_eq!(format_unix_secs(-62_167_219_201), "-001-12-31T23:59:59.000Z");
}

#[test]
fn formats_years_past_9999_without_truncating() {
    assert_eq!(format_unix_secs(253_402_300_800), "10000-01-01T00:00:00.000Z");
}

#[test]
fn civil_dates_of_day_counts() {
    assert_eq!(civil_from_days(0), (1970, 1, 1));
    assert_eq!(civil_from_days(-1), (1969, 12, 31));
    assert_eq!(civil_from_days(11_016), (2000, 2, 29));
    assert_eq!(civil_from_days(47_540), (2100, 2, 28));
    assert_eq!(civil_from_days(47_541), (2100, 3, 1));
}

#[test]
fn timestamps_sort_like_the_instants_they_name() {
    let a = format_unix_secs(1_700_000_000);
    let b = format_unix_secs(1_700_000_001);
    let c = format_unix_secs(1_800_000_000);
    assert!(a < b && b < c);
}

#[test]
fn four_digit_year_timestamps_have_twenty_four_characters() {
    for secs in [-62_167_219_200i64, -1, 0, 1_700_000_000, 253_402_300_799] {
        assert_eq!(format_unix_secs(secs).chars().count(), 24);
    }
    assert_eq!(format_unix_secs(-62_167_219_201).chars().count(), 24);
    assert_eq!(format_unix_secs(253_402_300_800).chars().count(), 25);
}
