//! RFC3339-style timestamp parsing.
//!
//! A timestamp string `YYYY-MM-DDTHH:MM:SS[.fff...][Z]` is validated byte by
//! byte, decomposed into calendar fields, and converted — through proleptic
//! Gregorian calendar arithmetic — into seconds and nanoseconds since
//! 1970-01-01T00:00:00Z.  The whole conversion is specified by
//! [`parse_rfc3339_spec`] and [`parse_rfc3339_weak_spec`], pure functions
//! over the UTF-8 bytes of the input, and each parser's contract says that
//! it returns exactly what its spec function denotes.

use vstd::prelude::*;
use vstd::string::StringSliceAdditionalSpecFns;

use crate::ascii::{is_digit, DIGIT_NINE, DIGIT_ZERO};

verus! {

/// Error from the timestamp parsers.
#[derive(Debug, PartialEq, Eq, Clone, Copy, Structural)]
pub enum TimestampError {
    /// A numeric component is out of range.
    OutOfRange,
    /// A byte where a decimal digit was expected is not one.
    InvalidDigit,
    /// The overall layout (length, separators) is wrong.
    InvalidFormat,
}

/// A point in time: seconds and nanoseconds since 1970-01-01T00:00:00Z.
#[derive(Debug, PartialEq, Eq, Clone, Copy, Hash, Structural)]
pub struct Timestamp {
    /// Whole seconds since the Unix epoch.
    pub secs: u64,
    /// Additional nanoseconds, always below 1_000_000_000.
    pub nanos: u32,
}

impl Timestamp {
    /// The representation invariant: the fractional part never reaches a
    /// whole second.
    pub open spec fn wf(self) -> bool {
        self.nanos < 1_000_000_000
    }

    /// Build a timestamp from its two components.
    pub fn new(secs: u64, nanos: u32) -> (t: Timestamp)
        requires
            nanos < 1_000_000_000,
        ensures
            t == (Timestamp { secs, nanos }),
            t.wf(),
    {
        Timestamp { secs, nanos }
    }
}

/// The value of a pair of ASCII digit bytes read as a two-digit decimal
/// number.
pub open spec fn two_digits_val(b1: u8, b2: u8) -> int {
    10 * (b1 - DIGIT_ZERO) + (b2 - DIGIT_ZERO)
}

/// Decode a two-digit decimal field.
///
/// Returns the value `10*(b1-'0') + (b2-'0')` exactly when both bytes are
/// ASCII digits, and `InvalidDigit` otherwise.
pub fn two_digits(b1: u8, b2: u8) -> (r: Result<u64, TimestampError>)
    ensures
        r == (if is_digit(b1) && is_digit(b2) {
            Result::<u64, TimestampError>::Ok(two_digits_val(b1, b2) as u64)
        } else {
            Result::<u64, TimestampError>::Err(TimestampError::InvalidDigit)
        }),
{
    if b1 < DIGIT_ZERO || b2 < DIGIT_ZERO || b1 > DIGIT_NINE || b2 > DIGIT_NINE {
        return Err(TimestampError::InvalidDigit);
    }
    Ok(((b1 - DIGIT_ZERO) * 10 + (b2 - DIGIT_ZERO)) as u64)
}

/// The byte `'-'`.
pub const DASH: u8 = 45;

/// The byte `':'`.
pub const COLON: u8 = 58;

/// The byte `'T'`.
pub const UPPER_T: u8 = 84;

/// The byte `' '`.
pub const SPACE: u8 = 32;

/// The byte `'Z'`.
pub const ZULU: u8 = 90;

/// The byte `'.'`.
pub const DOT: u8 = 46;

/// Whether a year is a leap year under the Gregorian 4/100/400 rule.
pub open spec fn spec_is_leap_year(y: int) -> bool {
    y % 4 == 0 && (!(y % 100 == 0) || y % 400 == 0)
}

/// Leap-year test, the Gregorian 4/100/400 rule.
pub fn is_leap_year(y: u64) -> (r: bool)
    ensures
        r == spec_is_leap_year(y as int),
{
    y % 4 == 0 && (!(y % 100 == 0) || y % 400 == 0)
}

/// How many leap years fall strictly between 1970 and `y` (for `y >= 1970`):
/// years divisible by 4 since 1972, minus the century years since 2000 that
/// are not divisible by 400.
pub open spec fn leap_years_before(y: int) -> int {
    (y - 1 - 1968) / 4 - (y - 1 - 1900) / 100 + (y - 1 - 1600) / 400
}

/// Days from the start of the year to the start of a month, in a non-leap
/// year (`m` between 1 and 12).
pub open spec fn month_start(m: int) -> int {
    if m == 1 {
        0
    } else if m == 2 {
        31
    } else if m == 3 {
        59
    } else if m == 4 {
        90
    } else if m == 5 {
        120
    } else if m == 6 {
        151
    } else if m == 7 {
        181
    } else if m == 8 {
        212
    } else if m == 9 {
        243
    } else if m == 10 {
        273
    } else if m == 11 {
        304
    } else {
        334
    }
}

/// The number of days in a month (`m` between 1 and 12).
pub open spec fn days_in_month(m: int, leap: bool) -> int {
    if m == 2 {
        if leap {
            29
        } else {
            28
        }
    } else if m == 4 || m == 6 || m == 9 || m == 11 {
        30
    } else {
        31
    }
}

/// The zero-based day of the year of a calendar date.
pub open spec fn day_of_year(m: int, d: int, leap: bool) -> int {
    month_start(m) + (d - 1) + if leap && m > 2 {
        1int
    } else {
        0int
    }
}

/// Days elapsed from 1970-01-01 to a calendar date.
pub open spec fn epoch_days_of(y: int, m: int, d: int) -> int {
    (y - 1970) * 365 + leap_years_before(y) + day_of_year(m, d, spec_is_leap_year(y))
}

/// Seconds elapsed from 1970-01-01T00:00:00Z to a date-time, with a leap
/// second (`se == 60`) folded down to 59.
pub open spec fn epoch_secs_of(y: int, m: int, d: int, h: int, mi: int, se: int) -> int {
    epoch_days_of(y, m, d) * 86400 + h * 3600 + mi * 60 + if se == 60 {
        59
    } else {
        se
    }
}

/// The five delimiter bytes of the `YYYY-MM-DDsHH:MM:SS` layout, with the
/// separator `s` either `T` or a space (`s.len() >= 19` assumed).
pub open spec fn weak_delims_ok(s: Seq<u8>) -> bool {
    &&& s[4] == DASH
    &&& s[7] == DASH
    &&& s[10] == UPPER_T || s[10] == SPACE
    &&& s[13] == COLON
    &&& s[16] == COLON
}

/// All fourteen bytes of the six two-digit fields are ASCII digits
/// (`s.len() >= 19` assumed).
pub open spec fn fields_are_digits(s: Seq<u8>) -> bool {
    &&& is_digit(s[0]) && is_digit(s[1]) && is_digit(s[2]) && is_digit(s[3])
    &&& is_digit(s[5]) && is_digit(s[6])
    &&& is_digit(s[8]) && is_digit(s[9])
    &&& is_digit(s[11]) && is_digit(s[12])
    &&& is_digit(s[14]) && is_digit(s[15])
    &&& is_digit(s[17]) && is_digit(s[18])
}

/// The year field of the layout: two two-digit pairs.
pub open spec fn year_of(s: Seq<u8>) -> int {
    100 * two_digits_val(s[0], s[1]) + two_digits_val(s[2], s[3])
}

/// The month field of the layout.
pub open spec fn month_of(s: Seq<u8>) -> int {
    two_digits_val(s[5], s[6])
}

/// The day field of the layout.
pub open spec fn day_of(s: Seq<u8>) -> int {
    two_digits_val(s[8], s[9])
}

/// The hour field of the layout.
pub open spec fn hour_of(s: Seq<u8>) -> int {
    two_digits_val(s[11], s[12])
}

/// The minute field of the layout.
pub open spec fn minute_of(s: Seq<u8>) -> int {
    two_digits_val(s[14], s[15])
}

/// The second field of the layout.
pub open spec fn second_of(s: Seq<u8>) -> int {
    two_digits_val(s[17], s[18])
}

/// Reading of the fractional digits from position `i` on: each digit fills
/// the next decimal place of the nanosecond value (`mult` starts at
/// 100_000_000 and shrinks tenfold per digit, so digits past the ninth are
/// accepted but contribute nothing).  A `Z` is allowed only as the very last
/// byte; any other non-digit fails.
pub open spec fn frac_nanos(s: Seq<u8>, i: int, mult: int, acc: int) -> Result<int, TimestampError>
    decreases s.len() - i,
{
    if i >= s.len() {
        Ok(acc)
    } else if s[i] == ZULU {
        if i == s.len() - 1 {
            Ok(acc)
        } else {
            Err(TimestampError::InvalidDigit)
        }
    } else if !is_digit(s[i]) {
        Err(TimestampError::InvalidDigit)
    } else {
        frac_nanos(s, i + 1, mult / 10, acc + mult * (s[i] - DIGIT_ZERO))
    }
}

/// What follows the nineteen fixed bytes: either a `.` introducing
/// fractional digits, or an optional final `Z`, or nothing.
pub open spec fn tail_nanos(s: Seq<u8>) -> Result<int, TimestampError> {
    if s.len() >= 20 && s[19] == DOT {
        frac_nanos(s, 20, 100_000_000, 0)
    } else if s.len() != 19 && (s.len() > 20 || s[19] != ZULU) {
        Err(TimestampError::InvalidFormat)
    } else {
        Ok(0)
    }
}

/// The meaning of the relaxed (weak) timestamp grammar: layout first, then
/// digits, then field ranges, then the fractional tail; the result is the
/// epoch offset of the fields.
pub open spec fn parse_rfc3339_weak_spec(s: Seq<u8>) -> Result<Timestamp, TimestampError> {
    if s.len() < 19 {
        Err(TimestampError::InvalidFormat)
    } else if !weak_delims_ok(s) {
        Err(TimestampError::InvalidFormat)
    } else if !fields_are_digits(s) {
        Err(TimestampError::InvalidDigit)
    } else {
        let y = year_of(s);
        let mo = month_of(s);
        let d = day_of(s);
        let h = hour_of(s);
        let mi = minute_of(s);
        let se = second_of(s);
        if y < 1970 || h > 23 || mi > 59 || se > 60 {
            Err(TimestampError::OutOfRange)
        } else if mo < 1 || mo > 12 {
            Err(TimestampError::OutOfRange)
        } else if d == 0 || d > days_in_month(mo, spec_is_leap_year(y)) {
            Err(TimestampError::OutOfRange)
        } else {
            match tail_nanos(s) {
                Ok(n) => Ok(
                    Timestamp {
                        secs: epoch_secs_of(y, mo, d, h, mi, se) as u64,
                        nanos: n as u32,
                    },
                ),
                Err(e) => Err(e),
            }
        }
    }
}

/// The meaning of the strict grammar: at least twenty bytes, a literal `T`
/// separator and a final `Z`, then everything the weak grammar checks.
pub open spec fn parse_rfc3339_spec(s: Seq<u8>) -> Result<Timestamp, TimestampError> {
    if s.len() < 20 {
        Err(TimestampError::InvalidFormat)
    } else if s[10] != UPPER_T || s[s.len() - 1] != ZULU {
        Err(TimestampError::InvalidFormat)
    } else {
        parse_rfc3339_weak_spec(s)
    }
}

/// The byte rendering of a decimal digit value.
pub open spec fn digit_byte(v: int) -> u8 {
    (DIGIT_ZERO + v) as u8
}

/// The canonical twenty-byte strict rendering of a date-time:
/// `YYYY-MM-DDTHH:MM:SSZ`.
pub open spec fn canonical_bytes(y: int, mo: int, d: int, h: int, mi: int, se: int) -> Seq<u8> {
    Seq::new(
        20,
        |k: int|
            if k == 0 {
                digit_byte(y / 1000)
            } else if k == 1 {
                digit_byte(y / 100 % 10)
            } else if k == 2 {
                digit_byte(y / 10 % 10)
            } else if k == 3 {
                digit_byte(y % 10)
            } else if k == 4 {
                DASH
            } else if k == 5 {
                digit_byte(mo / 10)
            } else if k == 6 {
                digit_byte(mo % 10)
            } else if k == 7 {
                DASH
            } else if k == 8 {
                digit_byte(d / 10)
            } else if k == 9 {
                digit_byte(d % 10)
            } else if k == 10 {
                UPPER_T
            } else if k == 11 {
                digit_byte(h / 10)
            } else if k == 12 {
                digit_byte(h % 10)
            } else if k == 13 {
                COLON
            } else if k == 14 {
                digit_byte(mi / 10)
            } else if k == 15 {
                digit_byte(mi % 10)
            } else if k == 16 {
                COLON
            } else if k == 17 {
                digit_byte(se / 10)
            } else if k == 18 {
                digit_byte(se % 10)
            } else {
                ZULU
            },
    )
}

/// The epoch offset of any date-time within the supported field ranges
/// stays below 253402300800, the first second of the year 10000, so it
/// always fits in 64 bits.
pub proof fn lemma_epoch_secs_bounds(y: int, mo: int, d: int, h: int, mi: int, se: int)
    requires
        1970 <= y <= 9999,
        1 <= mo <= 12,
        1 <= d <= days_in_month(mo, spec_is_leap_year(y)),
        0 <= h <= 23,
        0 <= mi <= 59,
        0 <= se <= 60,
    ensures
        0 <= epoch_secs_of(y, mo, d, h, mi, se) < 253402300800,
{
}

/// Law: parsing is a left inverse of formatting.  The canonical strict
/// rendering of any date-time whose fields are in range parses back, under
/// the strict grammar, to exactly the epoch offset of those fields.
#[verifier::rlimit(100)]
pub proof fn lemma_canonical_round_trip(y: int, mo: int, d: int, h: int, mi: int, se: int)
    requires
        1970 <= y <= 9999,
        1 <= mo <= 12,
        1 <= d <= days_in_month(mo, spec_is_leap_year(y)),
        0 <= h <= 23,
        0 <= mi <= 59,
        0 <= se <= 59,
    ensures
        parse_rfc3339_spec(canonical_bytes(y, mo, d, h, mi, se)) == Ok::<
            Timestamp,
            TimestampError,
        >(Timestamp { secs: epoch_secs_of(y, mo, d, h, mi, se) as u64, nanos: 0 }),
{
    let s = canonical_bytes(y, mo, d, h, mi, se);
    assert(s.len() == 20);
    assert(weak_delims_ok(s)) by {
        assert(s[4] == DASH && s[7] == DASH && s[10] == UPPER_T && s[13] == COLON && s[16]
            == COLON);
    }
    assert(s[10] == UPPER_T && s[19] == ZULU);
    assert(fields_are_digits(s)) by {
        assert(0 <= y / 1000 <= 9 && 0 <= y / 100 % 10 <= 9 && 0 <= y / 10 % 10 <= 9 && 0 <= y
            % 10 <= 9);
        assert(0 <= mo / 10 <= 9 && 0 <= mo % 10 <= 9);
        assert(0 <= d / 10 <= 9 && 0 <= d % 10 <= 9);
        assert(0 <= h / 10 <= 9 && 0 <= h % 10 <= 9);
        assert(0 <= mi / 10 <= 9 && 0 <= mi % 10 <= 9);
        assert(0 <= se / 10 <= 9 && 0 <= se % 10 <= 9);
    }
    assert(year_of(s) == y) by {
        assert(y == 10 * (y / 10) + y % 10);
        assert(y / 10 == 10 * (y / 100) + y / 10 % 10);
        assert(y / 100 == 10 * (y / 1000) + y / 100 % 10);
    }
    assert(month_of(s) == mo) by {
        assert(mo == 10 * (mo / 10) + mo % 10);
    }
    assert(day_of(s) == d) by {
        assert(d == 10 * (d / 10) + d % 10);
    }
    assert(hour_of(s) == h) by {
        assert(h == 10 * (h / 10) + h % 10);
    }
    assert(minute_of(s) == mi) by {
        assert(mi == 10 * (mi / 10) + mi % 10);
    }
    assert(second_of(s) == se) by {
        assert(se == 10 * (se / 10) + se % 10);
    }
    assert(tail_nanos(s) == Ok::<int, TimestampError>(0));
    lemma_epoch_secs_bounds(y, mo, d, h, mi, se);
}

/// The fractional tail reads nothing before position `i`: two inputs of
/// one length that agree from `i` on are read alike.
proof fn lemma_frac_nanos_agree(s1: Seq<u8>, s2: Seq<u8>, i: int, mult: int, acc: int)
    requires
        s1.len() == s2.len(),
        forall|j: int| i <= j < s1.len() ==> s1[j] == s2[j],
    ensures
        frac_nanos(s1, i, mult, acc) == frac_nanos(s2, i, mult, acc),
    decreases s1.len() - i,
{
    if i < s1.len() {
        lemma_frac_nanos_agree(s1, s2, i + 1, mult / 10, acc + mult * (s1[i] - DIGIT_ZERO));
    }
}

/// Law: the weak grammar accepts a space separator.  Replacing the `T` of
/// any input by a space never changes what the weak parse returns.
pub proof fn lemma_weak_accepts_space(s: Seq<u8>)
    requires
        s.len() >= 19,
        s[10] == UPPER_T,
    ensures
        parse_rfc3339_weak_spec(s.update(10, SPACE)) == parse_rfc3339_weak_spec(s),
{
    let t = s.update(10, SPACE);
    lemma_frac_nanos_agree(t, s, 20, 100_000_000, 0);
    assert(weak_delims_ok(t) == weak_delims_ok(s));
    assert(fields_are_digits(t) == fields_are_digits(s));
}

/// Law: the weak grammar makes the trailing `Z` optional.  Appending a `Z`
/// to a nineteen-byte input never changes what the weak parse returns.
pub proof fn lemma_weak_optional_zulu(s: Seq<u8>)
    requires
        s.len() == 19,
    ensures
        parse_rfc3339_weak_spec(s.push(ZULU)) == parse_rfc3339_weak_spec(s),
{
    let t = s.push(ZULU);
    assert(weak_delims_ok(t) == weak_delims_ok(s));
    assert(fields_are_digits(t) == fields_are_digits(s));
}

/// Law: the strict grammar accepts nothing without its fixed frame.  A
/// successful strict parse means the input was at least twenty bytes with a
/// literal `T` separator and a final `Z`; in particular a space separator
/// or a missing `Z` is always rejected.
pub proof fn lemma_strict_needs_t_and_z(s: Seq<u8>)
    ensures
        parse_rfc3339_spec(s) is Ok ==> s.len() >= 20 && s[10] == UPPER_T && s[s.len() - 1]
            == ZULU,
{
}

/// Law: corrupting any single byte of a canonical twenty-byte strict
/// timestamp with a byte that is no ASCII digit (and differs from the
/// original) turns a successful parse into an error — it can never
/// silently yield another timestamp.
pub proof fn lemma_single_byte_corruption(s: Seq<u8>, p: int, c: u8)
    requires
        s.len() == 20,
        parse_rfc3339_spec(s) is Ok,
        0 <= p < 20,
        c != s[p],
        !is_digit(c),
    ensures
        parse_rfc3339_spec(s.update(p, c)) is Err,
{
    let t = s.update(p, c);
    assert(t.len() == 20);
    if p == 10 || p == 19 {
        assert(parse_rfc3339_spec(t) is Err);
    } else if p == 4 || p == 7 || p == 13 || p == 16 {
        assert(!weak_delims_ok(t));
    } else {
        assert(!fields_are_digits(t));
    }
}

/// Parse an RFC3339-like timestamp such as `2018-02-14 00:28:07`.
///
/// Compared with [`parse_rfc3339`] this accepts either `T` or a single
/// space as the date/time separator and makes the trailing `Z` optional;
/// fractional digits of any precision are accepted in both.  Only UTC is
/// supported.  The result is exactly what [`parse_rfc3339_weak_spec`]
/// denotes on the input's UTF-8 bytes.
#[verifier::loop_isolation(false)]
#[verifier::rlimit(100)]
pub fn parse_rfc3339_weak(s: &str) -> (r: Result<Timestamp, TimestampError>)
    ensures
        r == parse_rfc3339_weak_spec(s.spec_bytes()),
        r matches Ok(t) ==> t.wf(),
{
    let b: &[u8] = s.as_bytes();
    if b.len() < 19 {
        return Err(TimestampError::InvalidFormat);
    }
    if b[4] != DASH || b[7] != DASH || (b[10] != UPPER_T && b[10] != SPACE) || b[13] != COLON
        || b[16] != COLON {
        return Err(TimestampError::InvalidFormat);
    }
    let year_hi = match two_digits(b[0], b[1]) {
        Ok(v) => v,
        Err(e) => { return Err(e); },
    };
    let year_lo = match two_digits(b[2], b[3]) {
        Ok(v) => v,
        Err(e) => { return Err(e); },
    };
    let year = year_hi * 100 + year_lo;
    let month = match two_digits(b[5], b[6]) {
        Ok(v) => v,
        Err(e) => { return Err(e); },
    };
    let day = match two_digits(b[8], b[9]) {
        Ok(v) => v,
        Err(e) => { return Err(e); },
    };
    let hour = match two_digits(b[11], b[12]) {
        Ok(v) => v,
        Err(e) => { return Err(e); },
    };
    let minute = match two_digits(b[14], b[15]) {
        Ok(v) => v,
        Err(e) => { return Err(e); },
    };
    let mut second = match two_digits(b[17], b[18]) {
        Ok(v) => v,
        Err(e) => { return Err(e); },
    };
    if year < 1970 || hour > 23 || minute > 59 || second > 60 {
        return Err(TimestampError::OutOfRange);
    }
    if second == 60 {
        second = 59;
    }
    let leap_years = ((year - 1) - 1968) / 4 - ((year - 1) - 1900) / 100 + ((year - 1) - 1600)
        / 400;
    let leap = is_leap_year(year);
    let (ydays0, mdays): (u64, u64) = match month {
        1 => (0, 31),
        2 => if leap {
            (31, 29)
        } else {
            (31, 28)
        },
        3 => (59, 31),
        4 => (90, 30),
        5 => (120, 31),
        6 => (151, 30),
        7 => (181, 31),
        8 => (212, 31),
        9 => (243, 30),
        10 => (273, 31),
        11 => (304, 30),
        12 => (334, 31),
        _ => { return Err(TimestampError::OutOfRange); },
    };
    if day > mdays || day == 0 {
        return Err(TimestampError::OutOfRange);
    }
    let mut ydays = ydays0 + (day - 1);
    if leap && month > 2 {
        ydays = ydays + 1;
    }
    let days = (year - 1970) * 365 + leap_years + ydays;
    let time = second + minute * 60 + hour * 3600;

    let mut nanos: u32 = 0;
    if b.len() >= 20 && b[19] == DOT {
        let mut mult: u32 = 100_000_000;
        let mut idx: usize = 20;
        while idx < b.len() && b[idx] != ZULU
            invariant
                20 <= idx <= b@.len(),
                mult == 0 ==> nanos <= 999_999_999,
                mult > 0 ==> nanos + 10 * mult <= 1_000_000_000,
                frac_nanos(b@, idx as int, mult as int, nanos as int) == frac_nanos(
                    b@,
                    20,
                    100_000_000,
                    0,
                ),
            decreases b@.len() - idx,
        {
            let c = b[idx];
            if c < DIGIT_ZERO || c > DIGIT_NINE {
                return Err(TimestampError::InvalidDigit);
            }
            let d = (c - DIGIT_ZERO) as u32;
            assert(mult * d <= 9 * mult) by (nonlinear_arith)
                requires
                    d <= 9,
                    0 <= mult,
            ;
            nanos = nanos + mult * d;
            mult = mult / 10;
            idx = idx + 1;
        }
        if idx < b.len() {
            // stopped at a `Z`: it must be the last byte
            if idx != b.len() - 1 {
                return Err(TimestampError::InvalidDigit);
            }
        }
    } else {
        if b.len() != 19 && (b.len() > 20 || b[19] != ZULU) {
            return Err(TimestampError::InvalidFormat);
        }
    }
    let secs = time + days * 86400;
    Ok(Timestamp { secs, nanos })
}

/// Parse a strict RFC3339 timestamp such as `2018-02-14T00:28:07Z`.
///
/// The separator must be a literal `T` and the final byte a literal `Z`;
/// any precision of fractional digits is accepted between the seconds field
/// and the `Z`.  Only UTC is supported.  The result is exactly what
/// [`parse_rfc3339_spec`] denotes on the input's UTF-8 bytes.
pub fn parse_rfc3339(s: &str) -> (r: Result<Timestamp, TimestampError>)
    ensures
        r == parse_rfc3339_spec(s.spec_bytes()),
        r matches Ok(t) ==> t.wf(),
{
    let b: &[u8] = s.as_bytes();
    if b.len() < 20 {
        return Err(TimestampError::InvalidFormat);
    }
    if b[10] != UPPER_T || b[b.len() - 1] != ZULU {
        return Err(TimestampError::InvalidFormat);
    }
    parse_rfc3339_weak(s)
}

} // verus!

