use humantime::{parse_duration, Duration, DurationError};

fn dur(secs: u64, nanos: u32) -> Duration {
    Duration::new(secs, nanos)
}

#[test]
fn test_units() {
    assert_eq!(parse_duration("17nsec"), Ok(dur(0, 17)));
    assert_eq!(parse_duration("33ns"), Ok(dur(0, 33)));
    assert_eq!(parse_duration("3usec"), Ok(dur(0, 3000)));
    assert_eq!(parse_duration("78us"), Ok(dur(0, 78000)));
    assert_eq!(parse_duration("31msec"), Ok(dur(0, 31000000)));
    assert_eq!(parse_duration("6ms"), Ok(dur(0, 6000000)));
    assert_eq!(parse_duration("3000s"), Ok(dur(3000, 0)));
    assert_eq!(parse_duration("300sec"), Ok(dur(300, 0)));
    assert_eq!(parse_duration("50seconds"), Ok(dur(50, 0)));
    assert_eq!(parse_duration("1second"), Ok(dur(1, 0)));
    assert_eq!(parse_duration("100m"), Ok(dur(6000, 0)));
    assert_eq!(parse_duration("12min"), Ok(dur(720, 0)));
    assert_eq!(parse_duration("1minute"), Ok(dur(60, 0)));
    assert_eq!(parse_duration("7minutes"), Ok(dur(420, 0)));
    assert_eq!(parse_duration("2h"), Ok(dur(7200, 0)));
    assert_eq!(parse_duration("7hr"), Ok(dur(25200, 0)));
    assert_eq!(parse_duration("1hour"), Ok(dur(3600, 0)));
    assert_eq!(parse_duration("24hours"), Ok(dur(86400, 0)));
    assert_eq!(parse_duration("1day"), Ok(dur(86400, 0)));
    assert_eq!(parse_duration("2days"), Ok(dur(172800, 0)));
    assert_eq!(parse_duration("365d"), Ok(dur(31536000, 0)));
    assert_eq!(parse_duration("1week"), Ok(dur(604800, 0)));
    assert_eq!(parse_duration("7weeks"), Ok(dur(4233600, 0)));
    assert_eq!(parse_duration("52w"), Ok(dur(31449600, 0)));
    assert_eq!(parse_duration("1month"), Ok(dur(2630016, 0)));
    assert_eq!(parse_duration("3months"), Ok(dur(3 * 2630016, 0)));
    assert_eq!(parse_duration("12M"), Ok(dur(31560192, 0)));
    assert_eq!(parse_duration("1year"), Ok(dur(31557600, 0)));
    assert_eq!(parse_duration("7years"), Ok(dur(7 * 31557600, 0)));
    assert_eq!(parse_duration("17y"), Ok(dur(536479200, 0)));
}

#[test]
fn hours_and_minutes() {
    assert_eq!(parse_duration("2h 37min"), Ok(dur(9420, 0)));
    assert_eq!(parse_duration("32ms"), Ok(dur(0, 32_000_000)));
}

#[test]
fn test_combo() {
    assert_eq!(parse_duration("20 min 17 nsec "), Ok(dur(1200, 17)));
    assert_eq!(parse_duration("2h 15m"), Ok(dur(8100, 0)));
}

#[test]
fn test_overlow() {
    // Overflow on subseconds is earlier because of how we do conversion
    // we could fix it, but I don't see any good reason for this
    assert_eq!(parse_duration("100000000000000000000ns"), Err(DurationError::NumberOverflow));
    assert_eq!(parse_duration("100000000000000000us"), Err(DurationError::NumberOverflow));
    assert_eq!(parse_duration("100000000000000ms"), Err(DurationError::NumberOverflow));

    assert_eq!(parse_duration("100000000000000000000s"), Err(DurationError::NumberOverflow));
    assert_eq!(parse_duration("10000000000000000000m"), Err(DurationError::NumberOverflow));
    assert_eq!(parse_duration("1000000000000000000h"), Err(DurationError::NumberOverflow));
    assert_eq!(parse_duration("100000000000000000d"), Err(DurationError::NumberOverflow));
    assert_eq!(parse_duration("10000000000000000w"), Err(DurationError::NumberOverflow));
    assert_eq!(parse_duration("1000000000000000M"), Err(DurationError::NumberOverflow));
    assert_eq!(parse_duration("10000000000000y"), Err(DurationError::NumberOverflow));
}

#[test]
fn error_variants() {
    assert_eq!(parse_duration(""), Err(DurationError::Empty));
    assert_eq!(parse_duration("   "), Err(DurationError::Empty));
    assert_eq!(parse_duration("hello"), Err(DurationError::NumberExpected(0)));
    // the offset names the offending character, past any skipped whitespace
    assert_eq!(parse_duration(" x"), Err(DurationError::NumberExpected(1)));
    assert_eq!(parse_duration("2h  x"), Err(DurationError::NumberExpected(4)));
    assert_eq!(parse_duration("12foo"), Err(DurationError::UnknownUnit(2, 5)));
    assert_eq!(parse_duration("123"), Err(DurationError::UnknownUnit(3, 3)));
    assert_eq!(parse_duration("2h &"), Err(DurationError::NumberExpected(3)));
    assert_eq!(parse_duration("2&"), Err(DurationError::InvalidCharacter(1)));
    assert_eq!(parse_duration("2h+"), Err(DurationError::InvalidCharacter(2)));
}

#[test]
fn whitespace_handling() {
    // whitespace may surround every span, and even split a number
    assert_eq!(parse_duration("  2h  "), Ok(dur(7200, 0)));
    assert_eq!(parse_duration("1 2s"), Ok(dur(12, 0)));
    // non-ASCII whitespace counts as whitespace too
    assert_eq!(parse_duration("2\u{a0}h"), Ok(dur(7200, 0)));
    assert_eq!(parse_duration("3min\u{2009}4s"), Ok(dur(184, 0)));
    assert_eq!(parse_duration("5\u{3000}s"), Ok(dur(5, 0)));
}

#[test]
fn case_of_m() {
    // `m` is minutes, `M` is months: distinguished by case alone
    assert_eq!(parse_duration("1m"), Ok(dur(60, 0)));
    assert_eq!(parse_duration("1M"), Ok(dur(2630016, 0)));
}

#[test]
fn nanosecond_carry() {
    // nanosecond spans add up into whole seconds
    assert_eq!(parse_duration("900ms 900ms"), Ok(dur(1, 800000000)));
    assert_eq!(parse_duration("1500000000ns"), Ok(dur(1, 500000000)));
    assert_eq!(parse_duration("1000000000ns"), Ok(dur(1, 0)));
}

#[test]
fn from_str_wrapper() {
    let d: Duration = "12h 5min 2ns".parse().unwrap();
    assert_eq!(d, dur(12 * 3600 + 5 * 60, 2));
    assert!("no duration".parse::<Duration>().is_err());
}
