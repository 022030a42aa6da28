use frontmatter_compose::clock::{read_clock, signed_moment, stamp_at, take_stamp};

fn is_digit(c: char) -> bool {
    c.is_ascii_digit()
}

fn has_stamp_form(s: &str) -> bool {
    let c: Vec<char> = s.chars().collect();
    let n = c.len();
    n >= 20
        && c[..n - 16].iter().all(|x| is_digit(*x) || *x == '+' || *x == '-')
        && c[n - 16] == '-'
        && is_digit(c[n - 15])
        && is_digit(c[n - 14])
        && c[n - 13] == '-'
        && is_digit(c[n - 12])
        && is_digit(c[n - 11])
        && c[n - 10] == 'T'
        && is_digit(c[n - 9])
        && is_digit(c[n - 8])
        && c[n - 7] == ':'
        && is_digit(c[n - 6])
        && is_digit(c[n - 5])
        && c[n - 4] == ':'
        && is_digit(c[n - 3])
        && is_digit(c[n - 2])
        && c[n - 1] == 'Z'
}

#[test]
fn moment_after_1970_is_the_reading() {
    assert_eq!(signed_moment(true, 0, 0), Some((0, 0)));
    assert_eq!(signed_moment(true, 1_700_000_000, 999_999_999), Some((1_700_000_000, 999_999_999)));
    assert_eq!(signed_moment(true, 59, 1_500_000_000), Some((59, 1_500_000_000)));
    assert_eq!(signed_moment(true, i64::MAX as u64, 0), Some((i64::MAX, 0)));
}

#[test]
fn moment_before_1970_counts_down() {
    assert_eq!(signed_moment(false, 0, 0), Some((0, 0)));
    assert_eq!(signed_moment(false, 1, 0), Some((-1, 0)));
    assert_eq!(signed_moment(false, 0, 1), Some((-1, 999_999_999)));
    assert_eq!(signed_moment(false, 10, 250_000_000), Some((-11, 750_000_000)));
    assert_eq!(signed_moment(false, i64::MAX as u64, 1), Some((i64::MIN, 999_999_999)));
}

#[test]
fn moment_that_does_not_fit_is_none() {
    assert_eq!(signed_moment(true, i64::MAX as u64 + 1, 0), None);
    assert_eq!(signed_moment(false, u64::MAX, 0), None);
    assert_eq!(signed_moment(false, 5, 1_000_000_000), None);
    assert_eq!(signed_moment(false, 5, u32::MAX), None);
}

#[test]
fn stamp_of_the_start_of_1970() {
    assert_eq!(stamp_at(true, 0, 0).as_deref(), Some("1970-01-01T00:00:00Z"));
    assert_eq!(stamp_at(false, 0, 0).as_deref(), Some("1970-01-01T00:00:00Z"));
}

#[test]
fn stamp_drops_what_is_below_a_second() {
    assert_eq!(stamp_at(true, 1_516_991_409, 453_829_000).as_deref(), Some("2018-01-26T18:30:09Z"));
    assert_eq!(stamp_at(true, 1_516_991_409, 999_999_999).as_deref(), Some("2018-01-26T18:30:09Z"));
}

#[test]
fn stamp_of_a_leap_day_and_of_the_last_second_of_9999() {
    assert_eq!(stamp_at(true, 1_709_210_096, 0).as_deref(), Some("2024-02-29T12:34:56Z"));
    assert_eq!(stamp_at(true, 253_402_300_799, 0).as_deref(), Some("9999-12-31T23:59:59Z"));
}

#[test]
fn stamp_before_1970() {
    assert_eq!(stamp_at(false, 1, 0).as_deref(), Some("1969-12-31T23:59:59Z"));
    assert_eq!(stamp_at(false, 0, 500_000_000).as_deref(), Some("1969-12-31T23:59:59Z"));
    assert_eq!(stamp_at(false, 86_400, 0).as_deref(), Some("1969-12-31T00:00:00Z"));
}

#[test]
fn stamp_of_a_year_beyond_four_digits_has_a_sign() {
    let late = stamp_at(true, 253_402_300_800, 0).unwrap();
    assert_eq!(late, "+10000-01-01T00:00:00Z");
    assert!(has_stamp_form(&late));
    let early = stamp_at(false, 62_198_755_200, 0).unwrap();
    assert_eq!(early, "-0001-01-01T00:00:00Z");
    assert!(has_stamp_form(&early));
}

#[test]
fn stamp_outside_the_years_of_the_calendar_is_none() {
    assert_eq!(stamp_at(true, i64::MAX as u64, 0), None);
    assert_eq!(stamp_at(true, u64::MAX, 0), None);
    assert_eq!(stamp_at(false, i64::MAX as u64, 0), None);
    assert_eq!(stamp_at(true, 0, 2_000_000_000), None);
}

#[test]
fn stamps_have_the_form() {
    for secs in [0u64, 1, 59, 86_399, 951_782_400, 1_700_000_000, 4_102_444_800, 253_402_300_799] {
        let stamp = stamp_at(true, secs, 0).unwrap();
        assert_eq!(stamp.len(), 20);
        assert!(has_stamp_form(&stamp));
    }
}

#[test]
fn clock_reading_keeps_nanoseconds_below_a_second() {
    let (_, _, nanos) = read_clock();
    assert!(nanos < 1_000_000_000);
}

#[test]
fn clock_is_read_only_when_asked_for() {
    assert_eq!(take_stamp(false), None);
    let stamp = take_stamp(true);
    assert!(stamp.is_some());
    assert!(has_stamp_form(&stamp.unwrap()));
}
