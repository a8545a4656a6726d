//! Predicates on the bit patterns of IEEE-754 double-precision values.
//!
//! The simulator carries every scalar as the 64-bit pattern of a double.
//! The few questions the logic itself asks of such a pattern — is it a NaN,
//! is it finite, is it strictly positive — are answered here by plain
//! integer logic on the pattern, and proved as stated.

use vstd::prelude::*;

verus! {

/// Bit pattern of double-precision negative zero: only the sign bit set.
pub const NEG_ZERO_BITS: u64 = 0x8000000000000000;

/// The exponent field of `b` is all ones and the mantissa is non-zero:
/// `b` encodes a NaN.
pub open spec fn is_nan_bits(b: u64) -> bool {
    (b >> 52) & 0x7FF == 0x7FF && (b & 0xFFFFFFFFFFFFF) != 0
}

/// The exponent field of `b` is not all ones: `b` encodes neither an
/// infinity nor a NaN.
pub open spec fn is_finite_bits(b: u64) -> bool {
    (b >> 52) & 0x7FF != 0x7FF
}

/// `b` encodes a double strictly greater than zero: sign bit clear, not a
/// zero, not a NaN.  A positive infinity counts as greater than zero.
pub open spec fn is_pos_bits(b: u64) -> bool {
    b >> 63 == 0 && b != 0 && !is_nan_bits(b)
}

/// Decides whether `b` encodes a double strictly greater than zero.
pub fn gt_zero(b: u64) -> (r: bool)
    ensures
        r == is_pos_bits(b),
{
    let exp: u64 = (b >> 52) & 0x7FF;
    let man: u64 = b & 0xFFFFFFFFFFFFF;
    (b >> 63) == 0 && b != 0 && !(exp == 0x7FF && man != 0)
}

} // verus!
