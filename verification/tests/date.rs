use humantime::{parse_rfc3339, parse_rfc3339_weak, two_digits, is_leap_year};
use humantime::{Timestamp, TimestampError};

use std::time::{SystemTime, UNIX_EPOCH};

fn ts(secs: u64, nanos: u32) -> Timestamp {
    Timestamp::new(secs, nanos)
}

fn leap(y: u64) -> bool {
    y % 4 == 0 && (y % 100 != 0 || y % 400 == 0)
}

/// Render an epoch second as a canonical strict timestamp string, together
/// with the value the parser is expected to produce.
fn from_sec(sec: u64) -> (String, Timestamp) {
    let days = sec / 86400;
    let rem = sec % 86400;
    let h = rem / 3600;
    let mi = rem % 3600 / 60;
    let se = rem % 60;
    let mut year: u64 = 1970;
    let mut day = days;
    loop {
        let ylen = if leap(year) { 366 } else { 365 };
        if day < ylen {
            break;
        }
        day -= ylen;
        year += 1;
    }
    let ml: [u64; 12] = [
        31,
        if leap(year) { 29 } else { 28 },
        31,
        30,
        31,
        30,
        31,
        31,
        30,
        31,
        30,
        31,
    ];
    let mut month = 0;
    while day >= ml[month] {
        day -= ml[month];
        month += 1;
    }
    let s = format!(
        "{:04}-{:02}-{:02}T{:02}:{:02}:{:02}Z",
        year,
        month + 1,
        day + 1,
        h,
        mi,
        se
    );
    (s, ts(sec, 0))
}

fn xorshift(state: &mut u64) -> u64 {
    let mut x = *state;
    x ^= x << 13;
    x ^= x >> 7;
    x ^= x << 17;
    *state = x;
    x
}

#[test]
fn smoke_tests() {
    assert_eq!(parse_rfc3339("1970-01-01T00:00:00Z").unwrap(), ts(0, 0));
    assert_eq!(parse_rfc3339("1970-01-01T00:00:01Z").unwrap(), ts(1, 0));
    assert_eq!(parse_rfc3339("2018-02-13T23:08:32Z").unwrap(), ts(1518563312, 0));
    assert_eq!(parse_rfc3339("2012-01-01T00:00:00Z").unwrap(), ts(1325376000, 0));
}

#[test]
fn upper_bound() {
    assert_eq!(parse_rfc3339("9999-12-31T23:59:59Z").unwrap(), ts(253402300800 - 1, 0));
}

#[test]
fn leap_second() {
    assert_eq!(parse_rfc3339("2016-12-31T23:59:60Z").unwrap(), ts(1483228799, 0));
}

#[test]
fn first_731_days() {
    let year_start = 0; // 1970
    for day in 0..(365 * 2 + 1) {
        // scan leap year and non-leap year
        let (s, time) = from_sec(year_start + day * 86400);
        assert_eq!(parse_rfc3339(&s).unwrap(), time);
    }
}

#[test]
fn the_731_consecutive_days() {
    let year_start = 1325376000; // 2012
    for day in 0..(365 * 2 + 1) {
        // scan leap year and non-leap year
        let (s, time) = from_sec(year_start + day * 86400);
        assert_eq!(parse_rfc3339(&s).unwrap(), time);
    }
}

#[test]
fn all_86400_seconds() {
    let day_start = 1325376000;
    for second in 0..86400 {
        // scan leap year and non-leap year
        let (s, time) = from_sec(day_start + second);
        assert_eq!(parse_rfc3339(&s).unwrap(), time);
    }
}

#[test]
fn random_past() {
    let upper = SystemTime::now()
        .duration_since(UNIX_EPOCH)
        .unwrap()
        .as_secs();
    let mut state: u64 = 0x853c49e6748fea9b;
    for _ in 0..10000 {
        let sec = xorshift(&mut state) % upper;
        let (s, time) = from_sec(sec);
        assert_eq!(parse_rfc3339(&s).unwrap(), time);
    }
}

#[test]
fn random_wide_range() {
    let mut state: u64 = 0x9e3779b97f4a7c15;
    for _ in 0..10000 {
        let sec = xorshift(&mut state) % 253370764800;
        let (s, time) = from_sec(sec);
        assert_eq!(parse_rfc3339(&s).unwrap(), time);
    }
}

#[test]
fn milliseconds() {
    assert_eq!(parse_rfc3339("1970-01-01T00:00:00.123Z").unwrap(), ts(0, 123000000));
}

#[test]
#[should_panic(expected = "OutOfRange")]
fn zero_month() {
    parse_rfc3339("1970-00-01T00:00:00Z").unwrap();
}

#[test]
#[should_panic(expected = "OutOfRange")]
fn big_month() {
    parse_rfc3339("1970-32-01T00:00:00Z").unwrap();
}

#[test]
#[should_panic(expected = "OutOfRange")]
fn zero_day() {
    parse_rfc3339("1970-01-00T00:00:00Z").unwrap();
}

#[test]
#[should_panic(expected = "OutOfRange")]
fn big_day() {
    parse_rfc3339("1970-12-35T00:00:00Z").unwrap();
}

#[test]
#[should_panic(expected = "OutOfRange")]
fn big_day2() {
    parse_rfc3339("1970-02-30T00:00:00Z").unwrap();
}

#[test]
#[should_panic(expected = "OutOfRange")]
fn big_second() {
    parse_rfc3339("1970-12-30T00:00:78Z").unwrap();
}

#[test]
#[should_panic(expected = "OutOfRange")]
fn big_minute() {
    parse_rfc3339("1970-12-30T00:78:00Z").unwrap();
}

#[test]
#[should_panic(expected = "OutOfRange")]
fn big_hour() {
    parse_rfc3339("1970-12-30T24:00:00Z").unwrap();
}

#[test]
fn break_data() {
    for pos in 0.."2016-12-31T23:59:60Z".len() {
        let mut bytes = String::from("2016-12-31T23:59:60Z").into_bytes();
        bytes[pos] = b'x';
        let _s = String::from_utf8(bytes).unwrap();
        parse_rfc3339("1970-12-30T24:00:00Z").unwrap_err();
    }
}

#[test]
fn corrupt_each_byte() {
    // a corrupted well-formed timestamp never parses to anything
    for pos in 0.."2016-12-31T23:59:60Z".len() {
        let mut bytes = String::from("2016-12-31T23:59:60Z").into_bytes();
        bytes[pos] = b'x';
        let s = String::from_utf8(bytes).unwrap();
        parse_rfc3339(&s).unwrap_err();
    }
}

#[test]
fn weak_smoke_tests() {
    assert_eq!(parse_rfc3339_weak("1970-01-01 00:00:00").unwrap(), ts(0, 0));
    parse_rfc3339("1970-01-01 00:00:00").unwrap_err();

    assert_eq!(parse_rfc3339_weak("1970-01-01 00:00:00.000123").unwrap(), ts(0, 123000));
    parse_rfc3339("1970-01-01 00:00:00.000123").unwrap_err();

    assert_eq!(parse_rfc3339_weak("1970-01-01T00:00:00.000123").unwrap(), ts(0, 123000));
    parse_rfc3339("1970-01-01T00:00:00.000123").unwrap_err();

    assert_eq!(parse_rfc3339_weak("1970-01-01 00:00:00.000123Z").unwrap(), ts(0, 123000));
    parse_rfc3339("1970-01-01 00:00:00.000123Z").unwrap_err();

    assert_eq!(parse_rfc3339_weak("1970-01-01 00:00:00Z").unwrap(), ts(0, 0));
    parse_rfc3339("1970-01-01 00:00:00Z").unwrap_err();
}

#[test]
fn two_digit_fields() {
    assert_eq!(two_digits(b'0', b'0').unwrap(), 0);
    assert_eq!(two_digits(b'4', b'2').unwrap(), 42);
    assert_eq!(two_digits(b'9', b'9').unwrap(), 99);
    assert_eq!(two_digits(b'/', b'0').unwrap_err(), TimestampError::InvalidDigit);
    assert_eq!(two_digits(b'0', b':').unwrap_err(), TimestampError::InvalidDigit);
    assert_eq!(two_digits(b'x', b'y').unwrap_err(), TimestampError::InvalidDigit);
}

#[test]
fn leap_year_rule() {
    assert!(is_leap_year(2016));
    assert!(!is_leap_year(1970));
    assert!(is_leap_year(2000));
    assert!(!is_leap_year(2100));
    assert!(!is_leap_year(2018));
}

#[test]
fn fraction_edges() {
    // a bare dot after the seconds is accepted with zero nanoseconds
    assert_eq!(parse_rfc3339_weak("1970-01-01T00:00:00.").unwrap(), ts(0, 0));
    // digits beyond nanosecond precision are truncated, not rounded
    assert_eq!(
        parse_rfc3339("1970-01-01T00:00:00.123456789999Z").unwrap(),
        ts(0, 123456789)
    );
    // a stray letter among the fraction digits is a bad digit
    assert_eq!(
        parse_rfc3339("1970-01-01T00:00:00.12x4Z").unwrap_err(),
        TimestampError::InvalidDigit
    );
    // a `Z` anywhere but last is a bad digit too
    assert_eq!(
        parse_rfc3339_weak("1970-01-01T00:00:00.1Z2").unwrap_err(),
        TimestampError::InvalidDigit
    );
}

#[test]
fn format_errors() {
    assert_eq!(parse_rfc3339("").unwrap_err(), TimestampError::InvalidFormat);
    assert_eq!(parse_rfc3339("2018-02-13").unwrap_err(), TimestampError::InvalidFormat);
    assert_eq!(
        parse_rfc3339("2018-02-13T23:08:32").unwrap_err(),
        TimestampError::InvalidFormat
    );
    assert_eq!(
        parse_rfc3339_weak("2018+02-13T23:08:32Z").unwrap_err(),
        TimestampError::InvalidFormat
    );
    assert_eq!(
        parse_rfc3339_weak("1970-01-01T00:00:00ZZ").unwrap_err(),
        TimestampError::InvalidFormat
    );
    assert_eq!(
        parse_rfc3339("197a-01-01T00:00:00Z").unwrap_err(),
        TimestampError::InvalidDigit
    );
}

#[test]
fn strict_with_fraction() {
    assert_eq!(parse_rfc3339("2018-02-13T23:08:32.123Z").unwrap(), ts(1518563312, 123000000));
}
