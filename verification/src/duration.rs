//! Human-friendly duration parsing.
//!
//! A duration expression is a sequence of `<integer><unit>` pairs separated
//! by optional whitespace, such as `"2h 37min"`.  The parser scans the UTF-8
//! bytes of the input left to right, accumulating seconds and nanoseconds
//! with checked arithmetic, and its contract says that it returns exactly
//! what [`parse_duration_spec`] — a pure recursive reading of the same
//! grammar — denotes on those bytes.

use vstd::prelude::*;
use vstd::string::StringSliceAdditionalSpecFns;

use crate::ascii::{
    is_alpha, is_digit, DIGIT_NINE, DIGIT_ZERO, LOWER_A, LOWER_C, LOWER_D, LOWER_E, LOWER_H,
    LOWER_I, LOWER_K, LOWER_M, LOWER_N, LOWER_O, LOWER_R, LOWER_S, LOWER_T, LOWER_U, LOWER_W,
    LOWER_Y, LOWER_Z, UPPER_A, UPPER_M, UPPER_Z,
};

verus! {

/// Error from the duration parser.
#[derive(Debug, PartialEq, Eq, Clone, Copy, Structural)]
pub enum DurationError {
    /// A character that is neither a digit, a letter, nor whitespace stood
    /// where a number or a unit was expected.  The field is the byte offset
    /// of that character in the input.
    InvalidCharacter(usize),
    /// Something other than a number stood where a number was expected.
    /// The field is the byte offset of the erroneous character in the
    /// input.
    NumberExpected(usize),
    /// A run of letters is not one of the supported unit spellings.  The
    /// fields are the start and end (exclusive) byte offsets of the run.
    UnknownUnit(usize, usize),
    /// An accumulated value does not fit in 64 bits.
    NumberOverflow,
    /// The input held no number at all (empty or only whitespace).
    Empty,
}

/// A span of time: whole seconds and a fraction in nanoseconds.
#[derive(Debug, PartialEq, Eq, Clone, Copy, Hash, Structural)]
pub struct Duration {
    /// Whole seconds.
    pub secs: u64,
    /// Additional nanoseconds, always below 1_000_000_000.
    pub nanos: u32,
}

impl Duration {
    /// The representation invariant: the fractional part never reaches a
    /// whole second.
    pub open spec fn wf(self) -> bool {
        self.nanos < 1_000_000_000
    }

    /// Build a duration from its two components.
    pub fn new(secs: u64, nanos: u32) -> (d: Duration)
        requires
            nanos < 1_000_000_000,
        ensures
            d == (Duration { secs, nanos }),
            d.wf(),
    {
        Duration { secs, nanos }
    }
}

/// How many bytes of whitespace start at position `i`: 1 for an ASCII
/// whitespace byte, 2 or 3 for the UTF-8 encoding of one of the non-ASCII
/// characters with the Unicode `White_Space` property (next-line, the
/// fixed-width and typographic spaces, the line and paragraph separators,
/// and the ideographic space), and 0 when no whitespace starts here.
pub open spec fn ws_len(s: Seq<u8>, i: int) -> int {
    if !(0 <= i < s.len()) {
        0
    } else if s[i] == 9 || s[i] == 10 || s[i] == 11 || s[i] == 12 || s[i] == 13 || s[i] == 32 {
        1
    } else if s[i] == 0xC2 && i + 1 < s.len() && (s[i + 1] == 0x85 || s[i + 1] == 0xA0) {
        2
    } else if s[i] == 0xE1 && i + 2 < s.len() && s[i + 1] == 0x9A && s[i + 2] == 0x80 {
        3
    } else if s[i] == 0xE2 && i + 2 < s.len() && s[i + 1] == 0x80 && (0x80 <= s[i + 2] <= 0x8A
        || s[i + 2] == 0xA8 || s[i + 2] == 0xA9 || s[i + 2] == 0xAF) {
        3
    } else if s[i] == 0xE2 && i + 2 < s.len() && s[i + 1] == 0x81 && s[i + 2] == 0x9F {
        3
    } else if s[i] == 0xE3 && i + 2 < s.len() && s[i + 1] == 0x80 && s[i + 2] == 0x80 {
        3
    } else {
        0
    }
}

/// How many bytes of whitespace start at position `i` of `b`.
fn ws_len_at(b: &[u8], i: usize) -> (w: usize)
    requires
        i < b@.len(),
    ensures
        w == ws_len(b@, i as int),
        i + w <= b@.len(),
{
    let c = b[i];
    if c == 9 || c == 10 || c == 11 || c == 12 || c == 13 || c == 32 {
        return 1;
    }
    if c == 0xC2 && i + 1 < b.len() && (b[i + 1] == 0x85 || b[i + 1] == 0xA0) {
        return 2;
    }
    if b.len() - i > 2 {
        let c1 = b[i + 1];
        let c2 = b[i + 2];
        if c == 0xE1 && c1 == 0x9A && c2 == 0x80 {
            return 3;
        }
        if c == 0xE2 && c1 == 0x80 && (0x80 <= c2 && c2 <= 0x8A || c2 == 0xA8 || c2 == 0xA9
            || c2 == 0xAF) {
            return 3;
        }
        if c == 0xE2 && c1 == 0x81 && c2 == 0x9F {
            return 3;
        }
        if c == 0xE3 && c1 == 0x80 && c2 == 0x80 {
            return 3;
        }
    }
    0
}

/// A unit of time that may suffix a number.
#[derive(Debug, PartialEq, Eq, Clone, Copy, Structural)]
pub enum Unit {
    /// `ns`, `nsec`.
    Nanos,
    /// `us`, `usec`.
    Micros,
    /// `ms`, `msec`.
    Millis,
    /// `s`, `sec`, `second`, `seconds`.
    Seconds,
    /// `m`, `min`, `minute`, `minutes`.
    Minutes,
    /// `h`, `hr`, `hour`, `hours`.
    Hours,
    /// `d`, `day`, `days`.
    Days,
    /// `w`, `week`, `weeks`.
    Weeks,
    /// `M`, `month`, `months` — defined as 30.44 days.
    Months,
    /// `y`, `year`, `years` — defined as 365.25 days.
    Years,
}

/// Whether the unit counts nanoseconds rather than whole seconds.
pub open spec fn unit_is_subsecond(u: Unit) -> bool {
    u == Unit::Nanos || u == Unit::Micros || u == Unit::Millis
}

/// The multiplier a number carries for its unit: nanoseconds per unit for
/// the sub-second units, seconds per unit for the others.
pub open spec fn unit_factor(u: Unit) -> int {
    match u {
        Unit::Nanos => 1,
        Unit::Micros => 1000,
        Unit::Millis => 1000000,
        Unit::Seconds => 1,
        Unit::Minutes => 60,
        Unit::Hours => 3600,
        Unit::Days => 86400,
        Unit::Weeks => 604800,
        Unit::Months => 2630016,
        Unit::Years => 31557600,
    }
}

/// Which unit the bytes `s[st .. en]` spell, if any.  The spellings are
/// case-sensitive; `m` is minutes while `M` is months.
pub open spec fn unit_of(s: Seq<u8>, st: int, en: int) -> Option<Unit> {
    let n = en - st;
    if n == 1 {
        if s[st] == LOWER_S {
            Some(Unit::Seconds)
        } else if s[st] == LOWER_M {
            Some(Unit::Minutes)
        } else if s[st] == LOWER_H {
            Some(Unit::Hours)
        } else if s[st] == LOWER_D {
            Some(Unit::Days)
        } else if s[st] == LOWER_W {
            Some(Unit::Weeks)
        } else if s[st] == UPPER_M {
            Some(Unit::Months)
        } else if s[st] == LOWER_Y {
            Some(Unit::Years)
        } else {
            None
        }
    } else if n == 2 {
        if s[st] == LOWER_N && s[st + 1] == LOWER_S {
            Some(Unit::Nanos)
        } else if s[st] == LOWER_U && s[st + 1] == LOWER_S {
            Some(Unit::Micros)
        } else if s[st] == LOWER_M && s[st + 1] == LOWER_S {
            Some(Unit::Millis)
        } else if s[st] == LOWER_H && s[st + 1] == LOWER_R {
            Some(Unit::Hours)
        } else {
            None
        }
    } else if n == 3 {
        if s[st] == LOWER_S && s[st + 1] == LOWER_E && s[st + 2] == LOWER_C {
            Some(Unit::Seconds)
        } else if s[st] == LOWER_M && s[st + 1] == LOWER_I && s[st + 2] == LOWER_N {
            Some(Unit::Minutes)
        } else if s[st] == LOWER_D && s[st + 1] == LOWER_A && s[st + 2] == LOWER_Y {
            Some(Unit::Days)
        } else {
            None
        }
    } else if n == 4 {
        if s[st] == LOWER_N && s[st + 1] == LOWER_S && s[st + 2] == LOWER_E && s[st + 3]
            == LOWER_C {
            Some(Unit::Nanos)
        } else if s[st] == LOWER_U && s[st + 1] == LOWER_S && s[st + 2] == LOWER_E && s[st + 3]
            == LOWER_C {
            Some(Unit::Micros)
        } else if s[st] == LOWER_M && s[st + 1] == LOWER_S && s[st + 2] == LOWER_E && s[st + 3]
            == LOWER_C {
            Some(Unit::Millis)
        } else if s[st] == LOWER_H && s[st + 1] == LOWER_O && s[st + 2] == LOWER_U && s[st + 3]
            == LOWER_R {
            Some(Unit::Hours)
        } else if s[st] == LOWER_W && s[st + 1] == LOWER_E && s[st + 2] == LOWER_E && s[st + 3]
            == LOWER_K {
            Some(Unit::Weeks)
        } else if s[st] == LOWER_Y && s[st + 1] == LOWER_E && s[st + 2] == LOWER_A && s[st + 3]
            == LOWER_R {
            Some(Unit::Years)
        } else if s[st] == LOWER_D && s[st + 1] == LOWER_A && s[st + 2] == LOWER_Y && s[st + 3]
            == LOWER_S {
            Some(Unit::Days)
        } else {
            None
        }
    } else if n == 5 {
        if s[st] == LOWER_H && s[st + 1] == LOWER_O && s[st + 2] == LOWER_U && s[st + 3]
            == LOWER_R && s[st + 4] == LOWER_S {
            Some(Unit::Hours)
        } else if s[st] == LOWER_W && s[st + 1] == LOWER_E && s[st + 2] == LOWER_E && s[st + 3]
            == LOWER_K && s[st + 4] == LOWER_S {
            Some(Unit::Weeks)
        } else if s[st] == LOWER_Y && s[st + 1] == LOWER_E && s[st + 2] == LOWER_A && s[st + 3]
            == LOWER_R && s[st + 4] == LOWER_S {
            Some(Unit::Years)
        } else if s[st] == LOWER_M && s[st + 1] == LOWER_O && s[st + 2] == LOWER_N && s[st + 3]
            == LOWER_T && s[st + 4] == LOWER_H {
            Some(Unit::Months)
        } else {
            None
        }
    } else if n == 6 {
        if s[st] == LOWER_S && s[st + 1] == LOWER_E && s[st + 2] == LOWER_C && s[st + 3]
            == LOWER_O && s[st + 4] == LOWER_N && s[st + 5] == LOWER_D {
            Some(Unit::Seconds)
        } else if s[st] == LOWER_M && s[st + 1] == LOWER_I && s[st + 2] == LOWER_N && s[st + 3]
            == LOWER_U && s[st + 4] == LOWER_T && s[st + 5] == LOWER_E {
            Some(Unit::Minutes)
        } else if s[st] == LOWER_M && s[st + 1] == LOWER_O && s[st + 2] == LOWER_N && s[st + 3]
            == LOWER_T && s[st + 4] == LOWER_H && s[st + 5] == LOWER_S {
            Some(Unit::Months)
        } else {
            None
        }
    } else if n == 7 {
        if s[st] == LOWER_S && s[st + 1] == LOWER_E && s[st + 2] == LOWER_C && s[st + 3]
            == LOWER_O && s[st + 4] == LOWER_N && s[st + 5] == LOWER_D && s[st + 6] == LOWER_S {
            Some(Unit::Seconds)
        } else if s[st] == LOWER_M && s[st + 1] == LOWER_I && s[st + 2] == LOWER_N && s[st + 3]
            == LOWER_U && s[st + 4] == LOWER_T && s[st + 5] == LOWER_E && s[st + 6] == LOWER_S {
            Some(Unit::Minutes)
        } else {
            None
        }
    } else {
        None
    }
}

/// Which unit the bytes `b[st .. en]` spell, if any.
fn match_unit(b: &[u8], st: usize, en: usize) -> (u: Option<Unit>)
    requires
        st <= en,
        en <= b@.len(),
    ensures
        u == unit_of(b@, st as int, en as int),
{
    let n = en - st;
    if n == 1 {
        let c0 = b[st];
        if c0 == LOWER_S {
            Some(Unit::Seconds)
        } else if c0 == LOWER_M {
            Some(Unit::Minutes)
        } else if c0 == LOWER_H {
            Some(Unit::Hours)
        } else if c0 == LOWER_D {
            Some(Unit::Days)
        } else if c0 == LOWER_W {
            Some(Unit::Weeks)
        } else if c0 == UPPER_M {
            Some(Unit::Months)
        } else if c0 == LOWER_Y {
            Some(Unit::Years)
        } else {
            None
        }
    } else if n == 2 {
        let c0 = b[st];
        let c1 = b[st + 1];
        if c0 == LOWER_N && c1 == LOWER_S {
            Some(Unit::Nanos)
        } else if c0 == LOWER_U && c1 == LOWER_S {
            Some(Unit::Micros)
        } else if c0 == LOWER_M && c1 == LOWER_S {
            Some(Unit::Millis)
        } else if c0 == LOWER_H && c1 == LOWER_R {
            Some(Unit::Hours)
        } else {
            None
        }
    } else if n == 3 {
        let c0 = b[st];
        let c1 = b[st + 1];
        let c2 = b[st + 2];
        if c0 == LOWER_S && c1 == LOWER_E && c2 == LOWER_C {
            Some(Unit::Seconds)
        } else if c0 == LOWER_M && c1 == LOWER_I && c2 == LOWER_N {
            Some(Unit::Minutes)
        } else if c0 == LOWER_D && c1 == LOWER_A && c2 == LOWER_Y {
            Some(Unit::Days)
        } else {
            None
        }
    } else if n == 4 {
        let c0 = b[st];
        let c1 = b[st + 1];
        let c2 = b[st + 2];
        let c3 = b[st + 3];
        if c0 == LOWER_N && c1 == LOWER_S && c2 == LOWER_E && c3 == LOWER_C {
            Some(Unit::Nanos)
        } else if c0 == LOWER_U && c1 == LOWER_S && c2 == LOWER_E && c3 == LOWER_C {
            Some(Unit::Micros)
        } else if c0 == LOWER_M && c1 == LOWER_S && c2 == LOWER_E && c3 == LOWER_C {
            Some(Unit::Millis)
        } else if c0 == LOWER_H && c1 == LOWER_O && c2 == LOWER_U && c3 == LOWER_R {
            Some(Unit::Hours)
        } else if c0 == LOWER_W && c1 == LOWER_E && c2 == LOWER_E && c3 == LOWER_K {
            Some(Unit::Weeks)
        } else if c0 == LOWER_Y && c1 == LOWER_E && c2 == LOWER_A && c3 == LOWER_R {
            Some(Unit::Years)
        } else if c0 == LOWER_D && c1 == LOWER_A && c2 == LOWER_Y && c3 == LOWER_S {
            Some(Unit::Days)
        } else {
            None
        }
    } else if n == 5 {
        let c0 = b[st];
        let c1 = b[st + 1];
        let c2 = b[st + 2];
        let c3 = b[st + 3];
        let c4 = b[st + 4];
        if c0 == LOWER_H && c1 == LOWER_O && c2 == LOWER_U && c3 == LOWER_R && c4 == LOWER_S {
            Some(Unit::Hours)
        } else if c0 == LOWER_W && c1 == LOWER_E && c2 == LOWER_E && c3 == LOWER_K && c4
            == LOWER_S {
            Some(Unit::Weeks)
        } else if c0 == LOWER_Y && c1 == LOWER_E && c2 == LOWER_A && c3 == LOWER_R && c4
            == LOWER_S {
            Some(Unit::Years)
        } else if c0 == LOWER_M && c1 == LOWER_O && c2 == LOWER_N && c3 == LOWER_T && c4
            == LOWER_H {
            Some(Unit::Months)
        } else {
            None
        }
    } else if n == 6 {
        let c0 = b[st];
        let c1 = b[st + 1];
        let c2 = b[st + 2];
        let c3 = b[st + 3];
        let c4 = b[st + 4];
        let c5 = b[st + 5];
        if c0 == LOWER_S && c1 == LOWER_E && c2 == LOWER_C && c3 == LOWER_O && c4 == LOWER_N && c5
            == LOWER_D {
            Some(Unit::Seconds)
        } else if c0 == LOWER_M && c1 == LOWER_I && c2 == LOWER_N && c3 == LOWER_U && c4
            == LOWER_T && c5 == LOWER_E {
            Some(Unit::Minutes)
        } else if c0 == LOWER_M && c1 == LOWER_O && c2 == LOWER_N && c3 == LOWER_T && c4
            == LOWER_H && c5 == LOWER_S {
            Some(Unit::Months)
        } else {
            None
        }
    } else if n == 7 {
        let c0 = b[st];
        let c1 = b[st + 1];
        let c2 = b[st + 2];
        let c3 = b[st + 3];
        let c4 = b[st + 4];
        let c5 = b[st + 5];
        let c6 = b[st + 6];
        if c0 == LOWER_S && c1 == LOWER_E && c2 == LOWER_C && c3 == LOWER_O && c4 == LOWER_N && c5
            == LOWER_D && c6 == LOWER_S {
            Some(Unit::Seconds)
        } else if c0 == LOWER_M && c1 == LOWER_I && c2 == LOWER_N && c3 == LOWER_U && c4
            == LOWER_T && c5 == LOWER_E && c6 == LOWER_S {
            Some(Unit::Minutes)
        } else {
            None
        }
    } else {
        None
    }
}

/// Add `n` of unit `u` into the accumulator `(sec, nsec)`, exactly as the
/// parser does: the unit multiplication, the nanosecond addition, the carry
/// of whole seconds out of a nanosecond total above 1_000_000_000, and the
/// final second addition each fail with `NumberOverflow` rather than wrap.
pub open spec fn apply_unit_spec(sec: int, nsec: int, n: int, u: Unit) -> Result<
    (int, int),
    DurationError,
> {
    let prod = n * unit_factor(u);
    if prod > u64::MAX {
        Err(DurationError::NumberOverflow)
    } else {
        let sadd = if unit_is_subsecond(u) {
            0int
        } else {
            prod
        };
        let nadd = if unit_is_subsecond(u) {
            prod
        } else {
            0int
        };
        let nsum = nsec + nadd;
        if nsum > u64::MAX {
            Err(DurationError::NumberOverflow)
        } else {
            let carry = if nsum > 1_000_000_000 {
                nsum / 1_000_000_000
            } else {
                0int
            };
            let nrem = if nsum > 1_000_000_000 {
                nsum % 1_000_000_000
            } else {
                nsum
            };
            if sadd + carry > u64::MAX {
                Err(DurationError::NumberOverflow)
            } else if sec + sadd + carry > u64::MAX {
                Err(DurationError::NumberOverflow)
            } else {
                Ok((sec + sadd + carry, nrem))
            }
        }
    }
}

/// Look the span `s[st .. en]` up as a unit and add `n` of it into the
/// accumulator; an unknown spelling fails with its span.
pub open spec fn apply_span_spec(s: Seq<u8>, st: int, en: int, n: int, sec: int, nsec: int)
    -> Result<(int, int), DurationError> {
    match unit_of(s, st, en) {
        Some(u) => apply_unit_spec(sec, nsec, n, u),
        None => Err(DurationError::UnknownUnit(st as usize, en as usize)),
    }
}

/// Turn the final accumulator into a duration value.  A nanosecond total of
/// exactly 1_000_000_000 (left by the carry rule, which only fires above
/// that) becomes one more whole second.
pub open spec fn finish_spec(sec: int, nsec: int) -> Result<Duration, DurationError> {
    if nsec >= 1_000_000_000 {
        if sec + 1 > u64::MAX {
            Err(DurationError::NumberOverflow)
        } else {
            Ok(Duration { secs: (sec + 1) as u64, nanos: (nsec - 1_000_000_000) as u32 })
        }
    } else {
        Ok(Duration { secs: sec as u64, nanos: nsec as u32 })
    }
}

/// Scanning for the start of the next number, from position `i`.
/// Whitespace is skipped; a digit starts a number; the end of the input
/// finishes the parse — unless nothing was parsed yet (`first`), which makes
/// the whole input empty; anything else is a complaint that a number was
/// expected, reported at the offending character's offset.
pub open spec fn scan_next(s: Seq<u8>, i: int, first: bool, sec: int, nsec: int) -> Result<
    Duration,
    DurationError,
>
    decreases s.len() - i,
{
    if i >= s.len() {
        if first {
            Err(DurationError::Empty)
        } else {
            finish_spec(sec, nsec)
        }
    } else if is_digit(s[i]) {
        scan_number(s, i + 1, (s[i] - DIGIT_ZERO) as int, sec, nsec)
    } else if ws_len(s, i) > 0 {
        scan_next(s, i + ws_len(s, i), first, sec, nsec)
    } else {
        Err(DurationError::NumberExpected(i as usize))
    }
}

/// Scanning the rest of a number whose value so far is `n`.  Digits extend
/// the number (a value beyond 64 bits is an overflow), whitespace inside a
/// number is skipped, a letter starts the number's unit, and the end of the
/// input leaves an empty — hence unknown — unit.
pub open spec fn scan_number(s: Seq<u8>, i: int, n: int, sec: int, nsec: int) -> Result<
    Duration,
    DurationError,
>
    decreases s.len() - i,
{
    if i >= s.len() {
        match apply_span_spec(s, i, i, n, sec, nsec) {
            Ok(p) => finish_spec(p.0, p.1),
            Err(e) => Err(e),
        }
    } else if is_digit(s[i]) {
        if 10 * n + (s[i] - DIGIT_ZERO) > u64::MAX {
            Err(DurationError::NumberOverflow)
        } else {
            scan_number(s, i + 1, 10 * n + (s[i] - DIGIT_ZERO), sec, nsec)
        }
    } else if is_alpha(s[i]) {
        scan_unit(s, i + 1, i, n, sec, nsec)
    } else if ws_len(s, i) > 0 {
        scan_number(s, i + ws_len(s, i), n, sec, nsec)
    } else {
        Err(DurationError::InvalidCharacter(i as usize))
    }
}

/// Scanning the rest of a unit that began at `st`.  Letters extend the
/// unit.  A digit ends it — the unit is applied and the digit starts the
/// next number; whitespace ends it and the scan for the next number begins
/// after that whitespace; the end of the input ends both the unit and the
/// parse.
pub open spec fn scan_unit(s: Seq<u8>, i: int, st: int, n: int, sec: int, nsec: int) -> Result<
    Duration,
    DurationError,
>
    decreases s.len() - i,
{
    if i >= s.len() {
        match apply_span_spec(s, st, i, n, sec, nsec) {
            Ok(p) => finish_spec(p.0, p.1),
            Err(e) => Err(e),
        }
    } else if is_digit(s[i]) {
        match apply_span_spec(s, st, i, n, sec, nsec) {
            Ok(p) => scan_number(s, i + 1, (s[i] - DIGIT_ZERO) as int, p.0, p.1),
            Err(e) => Err(e),
        }
    } else if is_alpha(s[i]) {
        scan_unit(s, i + 1, st, n, sec, nsec)
    } else if ws_len(s, i) > 0 {
        match apply_span_spec(s, st, i, n, sec, nsec) {
            Ok(p) => scan_next(s, i + ws_len(s, i), false, p.0, p.1),
            Err(e) => Err(e),
        }
    } else {
        Err(DurationError::InvalidCharacter(i as usize))
    }
}

/// The meaning of a whole duration expression: scan for the first number at
/// offset 0, with nothing accumulated yet.
pub open spec fn parse_duration_spec(s: Seq<u8>) -> Result<Duration, DurationError> {
    scan_next(s, 0, true, 0, 0)
}

/// Look the span `b[st .. en]` up as a unit and add `n` of it into the
/// accumulator `(sec, nsec)` with checked arithmetic.
fn apply_span(b: &[u8], st: usize, en: usize, n: u64, sec: u64, nsec: u64) -> (r: Result<
    (u64, u64),
    DurationError,
>)
    requires
        st <= en,
        en <= b@.len(),
        nsec <= 1_000_000_000,
    ensures
        r matches Ok(p) ==> apply_span_spec(b@, st as int, en as int, n as int, sec as int, nsec as int)
            == Ok::<(int, int), DurationError>((p.0 as int, p.1 as int)) && p.1 <= 1_000_000_000,
        r matches Err(e) ==> apply_span_spec(b@, st as int, en as int, n as int, sec as int, nsec as int)
            == Err::<(int, int), DurationError>(e),
{
    let u = match match_unit(b, st, en) {
        Some(u) => u,
        None => {
            return Err(DurationError::UnknownUnit(st, en));
        },
    };
    let factor: u64 = match u {
        Unit::Nanos => 1,
        Unit::Micros => 1000,
        Unit::Millis => 1000000,
        Unit::Seconds => 1,
        Unit::Minutes => 60,
        Unit::Hours => 3600,
        Unit::Days => 86400,
        Unit::Weeks => 604800,
        Unit::Months => 2630016,
        Unit::Years => 31557600,
    };
    let prod = match n.checked_mul(factor) {
        Some(p) => p,
        None => {
            return Err(DurationError::NumberOverflow);
        },
    };
    let subsecond = match u {
        Unit::Nanos | Unit::Micros | Unit::Millis => true,
        _ => false,
    };
    let sadd: u64 = if subsecond {
        0
    } else {
        prod
    };
    let nadd: u64 = if subsecond {
        prod
    } else {
        0
    };
    let nsum = match nsec.checked_add(nadd) {
        Some(v) => v,
        None => {
            return Err(DurationError::NumberOverflow);
        },
    };
    let mut sec_more = sadd;
    let mut nrem = nsum;
    if nsum > 1_000_000_000 {
        sec_more = match sadd.checked_add(nsum / 1_000_000_000) {
            Some(v) => v,
            None => {
                return Err(DurationError::NumberOverflow);
            },
        };
        nrem = nsum % 1_000_000_000;
    }
    let total = match sec.checked_add(sec_more) {
        Some(v) => v,
        None => {
            return Err(DurationError::NumberOverflow);
        },
    };
    Ok((total, nrem))
}

/// Turn the final accumulator into a duration value.
fn finish(sec: u64, nsec: u64) -> (r: Result<Duration, DurationError>)
    requires
        nsec <= 1_000_000_000,
    ensures
        r == finish_spec(sec as int, nsec as int),
        r matches Ok(d) ==> d.wf(),
{
    if nsec >= 1_000_000_000 {
        match sec.checked_add(1) {
            Some(s2) => Ok(Duration { secs: s2, nanos: (nsec - 1_000_000_000) as u32 }),
            None => Err(DurationError::NumberOverflow),
        }
    } else {
        Ok(Duration { secs: sec, nanos: nsec as u32 })
    }
}

/// Parse a duration expression.
///
/// The expression is a concatenation of time spans, each an integer number
/// followed by a unit suffix, with optional whitespace around each span.
/// Supported suffixes:
/// * `nsec`, `ns` — nanoseconds
/// * `usec`, `us` — microseconds
/// * `msec`, `ms` — milliseconds
/// * `seconds`, `second`, `sec`, `s`
/// * `minutes`, `minute`, `min`, `m`
/// * `hours`, `hour`, `hr`, `h`
/// * `days`, `day`, `d`
/// * `weeks`, `week`, `w`
/// * `months`, `month`, `M` — defined as 30.44 days
/// * `years`, `year`, `y` — defined as 365.25 days
///
/// The result is exactly what [`parse_duration_spec`] denotes on the
/// input's UTF-8 bytes.
pub fn parse_duration(s: &str) -> (r: Result<Duration, DurationError>)
    ensures
        r == parse_duration_spec(s.spec_bytes()),
        r matches Ok(d) ==> d.wf(),
{
    let b: &[u8] = s.as_bytes();
    let len = b.len();
    let mut sec: u64 = 0;
    let mut nsec: u64 = 0;
    let mut i: usize = 0;
    let mut n: u64 = 0;
    loop
        invariant
            b@ == s.spec_bytes(),
            len == b@.len(),
            i <= len,
            parse_duration_spec(s.spec_bytes()) == scan_next(b@, i as int, true, 0, 0),
        ensures
            i < len,
            is_digit(b@[i as int]),
            n == b@[i as int] - DIGIT_ZERO,
        decreases len - i,
    {
        if i >= len {
            return Err(DurationError::Empty);
        }
        let c = b[i];
        if c >= DIGIT_ZERO && c <= DIGIT_NINE {
            n = (c - DIGIT_ZERO) as u64;
            break;
        }
        let w = ws_len_at(b, i);
        if w == 0 {
            return Err(DurationError::NumberExpected(i));
        }
        i = i + w;
    }
    i = i + 1;
    loop
        invariant
            b@ == s.spec_bytes(),
            len == b@.len(),
            i <= len,
            nsec <= 1_000_000_000,
            parse_duration_spec(s.spec_bytes()) == scan_number(
                b@,
                i as int,
                n as int,
                sec as int,
                nsec as int,
            ),
        decreases len - i,
    {
        let ghost i0 = i as int;
        // the rest of the number
        loop
            invariant
                b@ == s.spec_bytes(),
                len == b@.len(),
                i0 <= i <= len,
                parse_duration_spec(s.spec_bytes()) == scan_number(
                    b@,
                    i as int,
                    n as int,
                    sec as int,
                    nsec as int,
                ),
            ensures
                i0 <= i < len,
                is_alpha(b@[i as int]),
                parse_duration_spec(s.spec_bytes()) == scan_number(
                    b@,
                    i as int,
                    n as int,
                    sec as int,
                    nsec as int,
                ),
            decreases len - i,
        {
            if i >= len {
                return Err(DurationError::UnknownUnit(i, i));
            }
            let c = b[i];
            if c >= DIGIT_ZERO && c <= DIGIT_NINE {
                let d = c - DIGIT_ZERO;
                n = match n.checked_mul(10) {
                    Some(x) => match x.checked_add(d as u64) {
                        Some(y) => y,
                        None => {
                            return Err(DurationError::NumberOverflow);
                        },
                    },
                    None => {
                        return Err(DurationError::NumberOverflow);
                    },
                };
                i = i + 1;
            } else if (c >= LOWER_A && c <= LOWER_Z) || (c >= UPPER_A && c <= UPPER_Z) {
                break;
            } else {
                let w = ws_len_at(b, i);
                if w == 0 {
                    return Err(DurationError::InvalidCharacter(i));
                }
                i = i + w;
            }
        }
        let start = i;
        i = i + 1;
        // the unit
        let mut more_digits = false;
        loop
            invariant_except_break
                parse_duration_spec(s.spec_bytes()) == scan_unit(
                    b@,
                    i as int,
                    start as int,
                    n as int,
                    sec as int,
                    nsec as int,
                ),
            invariant
                b@ == s.spec_bytes(),
                len == b@.len(),
                i0 < i <= len,
                start < i,
                nsec <= 1_000_000_000,
            ensures
                i0 < i <= len,
                nsec <= 1_000_000_000,
                more_digits ==> parse_duration_spec(s.spec_bytes()) == scan_number(
                    b@,
                    i as int,
                    n as int,
                    sec as int,
                    nsec as int,
                ),
                !more_digits ==> parse_duration_spec(s.spec_bytes()) == scan_next(
                    b@,
                    i as int,
                    false,
                    sec as int,
                    nsec as int,
                ),
            decreases len - i,
        {
            if i >= len {
                match apply_span(b, start, i, n, sec, nsec) {
                    Ok(p) => {
                        return finish(p.0, p.1);
                    },
                    Err(e) => {
                        return Err(e);
                    },
                }
            }
            let c = b[i];
            if c >= DIGIT_ZERO && c <= DIGIT_NINE {
                match apply_span(b, start, i, n, sec, nsec) {
                    Ok(p) => {
                        sec = p.0;
                        nsec = p.1;
                    },
                    Err(e) => {
                        return Err(e);
                    },
                }
                n = (c - DIGIT_ZERO) as u64;
                i = i + 1;
                more_digits = true;
                break;
            } else if (c >= LOWER_A && c <= LOWER_Z) || (c >= UPPER_A && c <= UPPER_Z) {
                i = i + 1;
            } else {
                let w = ws_len_at(b, i);
                if w == 0 {
                    return Err(DurationError::InvalidCharacter(i));
                }
                match apply_span(b, start, i, n, sec, nsec) {
                    Ok(p) => {
                        sec = p.0;
                        nsec = p.1;
                    },
                    Err(e) => {
                        return Err(e);
                    },
                }
                i = i + w;
                more_digits = false;
                break;
            }
        }
        if more_digits {
            continue;
        }
        // the gap before the next number
        loop
            invariant_except_break
                parse_duration_spec(s.spec_bytes()) == scan_next(
                    b@,
                    i as int,
                    false,
                    sec as int,
                    nsec as int,
                ),
            invariant
                b@ == s.spec_bytes(),
                len == b@.len(),
                i0 < i <= len,
                nsec <= 1_000_000_000,
            ensures
                i0 < i <= len,
                parse_duration_spec(s.spec_bytes()) == scan_number(
                    b@,
                    i as int,
                    n as int,
                    sec as int,
                    nsec as int,
                ),
            decreases len - i,
        {
            if i >= len {
                return finish(sec, nsec);
            }
            let c = b[i];
            if c >= DIGIT_ZERO && c <= DIGIT_NINE {
                n = (c - DIGIT_ZERO) as u64;
                i = i + 1;
                break;
            }
            let w = ws_len_at(b, i);
            if w == 0 {
                return Err(DurationError::NumberExpected(i));
            }
            i = i + w;
        }
    }
}

/// The numeric value of the run of ASCII digits `s[st .. en]`.
pub open spec fn digits_val(s: Seq<u8>, st: int, en: int) -> int
    decreases en - st,
{
    if en <= st {
        0
    } else {
        10 * digits_val(s, st, en - 1) + (s[en - 1] - DIGIT_ZERO)
    }
}

/// A digit run's value is never negative.
pub proof fn lemma_digits_val_nonneg(s: Seq<u8>, st: int, en: int)
    requires
        forall|m: int| st <= m < en ==> is_digit(s[m]),
    ensures
        digits_val(s, st, en) >= 0,
    decreases en - st,
{
    if en > st {
        lemma_digits_val_nonneg(s, st, en - 1);
    }
}

/// A digit run's value only grows as the run extends.
pub proof fn lemma_digits_val_prefix_le(s: Seq<u8>, st: int, j: int, en: int)
    requires
        st <= j <= en,
        forall|m: int| st <= m < en ==> is_digit(s[m]),
    ensures
        digits_val(s, st, j) <= digits_val(s, st, en),
    decreases en - j,
{
    if j < en {
        lemma_digits_val_prefix_le(s, st, j, en - 1);
        lemma_digits_val_nonneg(s, st, en - 1);
    }
}

/// Scanning a run of digits accumulates exactly the run's value, or stops
/// with an overflow as soon as the value no longer fits in 64 bits.
proof fn lemma_scan_number_digits(s: Seq<u8>, j: int, k: int, sec: int, nsec: int)
    requires
        1 <= j <= k <= s.len(),
        forall|m: int| 0 <= m < k ==> is_digit(s[m]),
        digits_val(s, 0, j) <= u64::MAX,
    ensures
        scan_number(s, j, digits_val(s, 0, j), sec, nsec) == (if digits_val(s, 0, k) > u64::MAX {
            Err::<Duration, DurationError>(DurationError::NumberOverflow)
        } else {
            scan_number(s, k, digits_val(s, 0, k), sec, nsec)
        }),
    decreases k - j,
{
    lemma_digits_val_nonneg(s, 0, k);
    if j < k {
        assert(is_digit(s[j]));
        assert(digits_val(s, 0, j + 1) == 10 * digits_val(s, 0, j) + (s[j] - DIGIT_ZERO));
        if digits_val(s, 0, j + 1) > u64::MAX {
            lemma_digits_val_prefix_le(s, 0, j + 1, k);
        } else {
            lemma_scan_number_digits(s, j + 1, k, sec, nsec);
        }
    }
}

/// Any recognised unit spelling consists of letters only.
proof fn lemma_unit_span_alpha(s: Seq<u8>, st: int, en: int)
    requires
        unit_of(s, st, en) is Some,
    ensures
        forall|m: int| st <= m < en ==> is_alpha(#[trigger] s[m]),
{
    assert forall|m: int| st <= m < en implies is_alpha(#[trigger] s[m]) by {
        assert(en - st <= 7);
    }
}

/// Scanning a run of letters reaches the end of the input and applies the
/// span that began at `st`.
proof fn lemma_scan_unit_letters(s: Seq<u8>, i: int, st: int, n: int, sec: int, nsec: int)
    requires
        0 <= st < i <= s.len(),
        forall|m: int| i <= m < s.len() ==> is_alpha(#[trigger] s[m]),
    ensures
        scan_unit(s, i, st, n, sec, nsec) == (match apply_span_spec(
            s,
            st,
            s.len() as int,
            n,
            sec,
            nsec,
        ) {
            Ok(p) => finish_spec(p.0, p.1),
            Err(e) => Err(e),
        }),
    decreases s.len() - i,
{
    if i < s.len() {
        lemma_scan_unit_letters(s, i + 1, st, n, sec, nsec);
    }
}

/// Law: a numeric literal whose value, after multiplication by its unit,
/// would exceed the 64-bit unsigned range always parses to
/// `NumberOverflow`.  The input here is one literal and its unit: a
/// non-empty run of digits followed by a recognised unit spelling.
pub proof fn lemma_number_overflow(s: Seq<u8>, k: int, u: Unit)
    requires
        1 <= k < s.len(),
        forall|m: int| 0 <= m < k ==> is_digit(s[m]),
        unit_of(s, k, s.len() as int) == Some(u),
        digits_val(s, 0, k) * unit_factor(u) > u64::MAX,
    ensures
        parse_duration_spec(s) == Err::<Duration, DurationError>(DurationError::NumberOverflow),
{
    let v = digits_val(s, 0, k);
    assert(is_digit(s[0]));
    assert(digits_val(s, 0, 0) == 0);
    assert(digits_val(s, 0, 1) == s[0] - DIGIT_ZERO);
    assert(parse_duration_spec(s) == scan_number(s, 1, digits_val(s, 0, 1), 0, 0));
    lemma_scan_number_digits(s, 1, k, 0, 0);
    if v <= u64::MAX {
        lemma_unit_span_alpha(s, k, s.len() as int);
        assert(is_alpha(s[k]));
        assert(!is_digit(s[k]));
        assert(scan_number(s, k, v, 0, 0) == scan_unit(s, k + 1, k, v, 0, 0));
        lemma_scan_unit_letters(s, k + 1, k, v, 0, 0);
        lemma_digits_val_nonneg(s, 0, k);
        assert(apply_span_spec(s, k, s.len() as int, v, 0, 0) == Err::<
            (int, int),
            DurationError,
        >(DurationError::NumberOverflow));
    }
}

impl core::str::FromStr for Duration {
    type Err = DurationError;

    /// Parse a duration expression, as [`parse_duration`] does.
    fn from_str(s: &str) -> Result<Duration, DurationError> {
        parse_duration(s)
    }
}

} // verus!
