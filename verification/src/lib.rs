//! Human-friendly time parsers.
//!
//! Two independent, allocation-light engines, each a pure function from an
//! input string to a value or a structured error:
//!
//! - [`parse_duration`] reads expressions such as `"2h 37min"` into a
//!   seconds-plus-nanoseconds [`Duration`].
//! - [`parse_rfc3339`] and [`parse_rfc3339_weak`] read RFC3339-style UTC
//!   timestamps such as `"2018-02-13T23:08:32.123Z"` into a [`Timestamp`],
//!   an offset from the Unix epoch.
//!
//! Every parser comes with a contract pinning its result, for every input,
//! to a specification-level reading of the same grammar.

mod ascii;
mod date;
mod duration;

pub use date::{parse_rfc3339, parse_rfc3339_weak, two_digits, is_leap_year};
pub use date::{Timestamp, TimestampError};
pub use duration::{parse_duration, Duration, DurationError, Unit};
