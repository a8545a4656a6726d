//! Double-precision arithmetic on bit patterns.
//!
//! The scheme's arithmetic is IEEE-754 double precision.  Each operation is
//! performed by an outside software implementation of that arithmetic on raw
//! 64-bit patterns, behind a trusted wrapper.  What an operation returns is
//! a function of its operand bits alone, so each result bears a name — an
//! uninterpreted spec function — and the contracts of the simulator speak
//! of those names.  The wrappers for addition and multiplication also state
//! the two short identities about zeros that the zero-diffusion law rests
//! on; IEEE-754 prescribes them and the implementation follows it.

use vstd::prelude::*;
use rustc_apfloat::Float;
use rustc_apfloat::Round;
use rustc_apfloat::ieee::Double;
use crate::bits::{NEG_ZERO_BITS, is_finite_bits, is_nan_bits};

verus! {

/// The bit pattern of the double sum of the doubles encoded by `a` and `b`,
/// rounded to nearest, ties to even.
pub uninterp spec fn add_bits(a: u64, b: u64) -> u64;

/// The bit pattern of the double product of the doubles encoded by `a` and
/// `b`, rounded to nearest, ties to even.
pub uninterp spec fn mul_bits(a: u64, b: u64) -> u64;

/// The bit pattern of the double quotient of the doubles encoded by `a`
/// (dividend) and `b` (divisor), rounded to nearest, ties to even.
pub uninterp spec fn div_bits(a: u64, b: u64) -> u64;

/// The bit pattern of the double square root of the double encoded by `a`,
/// rounded to nearest, ties to even.
pub uninterp spec fn sqrt_bits(a: u64) -> u64;

/// The double encoded by `a`, truncated toward zero and saturated to the
/// range of `u64`; a NaN truncates to zero.
pub uninterp spec fn trunc_bits(a: u64) -> u64;

/// The bit pattern of the double nearest to the integer `v`, ties to even.
pub uninterp spec fn whole_bits(v: u64) -> u64;

/// Relies on `rustc_apfloat::ieee::Double::add_r`: IEEE-754 double addition
/// of the operand bit patterns, rounded to nearest, ties to even.  The
/// zero clauses are the IEEE-754 rules that a sum with a zero addend is
/// the other addend, except that `-0.0 + +0.0` is `+0.0`; they are stated
/// only for a non-NaN addend, since an operation quietens a signaling NaN
/// and so can change its bits.
#[verifier::external_body]
pub(crate) fn add_f64(a: u64, b: u64) -> (r: u64)
    ensures
        r == add_bits(a, b),
        b == NEG_ZERO_BITS && !is_nan_bits(a) ==> r == a,
        b == 0u64 && a != NEG_ZERO_BITS && !is_nan_bits(a) ==> r == a,
        b == 0u64 && a == NEG_ZERO_BITS ==> r == 0u64,
{
    let x = Double::from_bits(a as u128);
    let y = Double::from_bits(b as u128);
    x.add_r(y, Round::NearestTiesToEven).value.to_bits() as u64
}

/// Relies on `rustc_apfloat::ieee::Double::mul_r`: IEEE-754 double
/// multiplication of the operand bit patterns, rounded to nearest, ties to
/// even.  The zero clause is the IEEE-754 rule that a product of a zero and
/// a finite double is a zero (of either sign).
#[verifier::external_body]
pub(crate) fn mul_f64(a: u64, b: u64) -> (r: u64)
    ensures
        r == mul_bits(a, b),
        a == 0u64 && is_finite_bits(b) ==> r == 0u64 || r == NEG_ZERO_BITS,
{
    let x = Double::from_bits(a as u128);
    let y = Double::from_bits(b as u128);
    x.mul_r(y, Round::NearestTiesToEven).value.to_bits() as u64
}

/// Relies on `rustc_apfloat::ieee::Double::div_r`: IEEE-754 double division
/// of the operand bit patterns, rounded to nearest, ties to even.
#[verifier::external_body]
pub(crate) fn div_f64(a: u64, b: u64) -> (r: u64)
    ensures
        r == div_bits(a, b),
{
    let x = Double::from_bits(a as u128);
    let y = Double::from_bits(b as u128);
    x.div_r(y, Round::NearestTiesToEven).value.to_bits() as u64
}

/// Relies on `ieee_apsqrt::sqrt_accurate`: correctly rounded IEEE-754
/// double square root of the operand bit pattern, to nearest, ties to even.
#[verifier::external_body]
pub(crate) fn sqrt_f64(a: u64) -> (r: u64)
    ensures
        r == sqrt_bits(a),
{
    ieee_apsqrt::sqrt_accurate(a, Round::NearestTiesToEven).0.value
}

/// Relies on `rustc_apfloat::ieee::Double::to_u128_r` with width 64,
/// rounding toward zero: the double encoded by `a` truncated to a `u64`,
/// saturating below at zero and above at `u64::MAX`, a NaN going to zero.
#[verifier::external_body]
pub(crate) fn trunc_f64(a: u64) -> (r: u64)
    ensures
        r == trunc_bits(a),
{
    let x = Double::from_bits(a as u128);
    let mut exact = false;
    x.to_u128_r(64, Round::TowardZero, &mut exact).value as u64
}

/// Relies on `rustc_apfloat::ieee::Double::from_u128_r`: the integer `v` as
/// an IEEE-754 double, rounded to nearest, ties to even.
#[verifier::external_body]
pub(crate) fn whole_f64(v: u64) -> (r: u64)
    ensures
        r == whole_bits(v),
{
    Double::from_u128_r(v as u128, Round::NearestTiesToEven).value.to_bits() as u64
}

} // verus!
