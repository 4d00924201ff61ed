//! ASCII byte classification shared by the parsers.

use vstd::prelude::*;

verus! {

/// The byte `'0'`.
pub const DIGIT_ZERO: u8 = 48;

/// The byte `'9'`.
pub const DIGIT_NINE: u8 = 57;

/// Whether a byte is an ASCII decimal digit.
pub open spec fn is_digit(b: u8) -> bool {
    DIGIT_ZERO <= b && b <= DIGIT_NINE
}

/// The byte `'a'`.
pub const LOWER_A: u8 = 97;

/// The byte `'z'`.
pub const LOWER_Z: u8 = 122;

/// The byte `'A'`.
pub const UPPER_A: u8 = 65;

/// The byte `'Z'`.
pub const UPPER_Z: u8 = 90;

/// Whether a byte is an ASCII letter.
pub open spec fn is_alpha(b: u8) -> bool {
    (LOWER_A <= b && b <= LOWER_Z) || (UPPER_A <= b && b <= UPPER_Z)
}

/// The byte `'c'`.
pub const LOWER_C: u8 = 99;

/// The byte `'d'`.
pub const LOWER_D: u8 = 100;

/// The byte `'e'`.
pub const LOWER_E: u8 = 101;

/// The byte `'h'`.
pub const LOWER_H: u8 = 104;

/// The byte `'i'`.
pub const LOWER_I: u8 = 105;

/// The byte `'k'`.
pub const LOWER_K: u8 = 107;

/// The byte `'m'`.
pub const LOWER_M: u8 = 109;

/// The byte `'n'`.
pub const LOWER_N: u8 = 110;

/// The byte `'o'`.
pub const LOWER_O: u8 = 111;

/// The byte `'r'`.
pub const LOWER_R: u8 = 114;

/// The byte `'s'`.
pub const LOWER_S: u8 = 115;

/// The byte `'t'`.
pub const LOWER_T: u8 = 116;

/// The byte `'u'`.
pub const LOWER_U: u8 = 117;

/// The byte `'w'`.
pub const LOWER_W: u8 = 119;

/// The byte `'y'`.
pub const LOWER_Y: u8 = 121;

/// The byte `'M'`.
pub const UPPER_M: u8 = 77;

} // verus!
