//! Single-precision scalars, carried as raw IEEE-754 binary32 bit patterns.
//!
//! The simulation's arithmetic is IEEE-754 single precision.  This module
//! keeps every scalar as its 32-bit pattern and performs the four basic
//! operations through `rustc_apfloat`, whose `ieee::Single` type implements
//! IEEE-754 binary32 arithmetic on raw bit patterns.  Comparisons and sign
//! tests are pure bit logic and are implemented and verified here directly.

use rustc_apfloat::Float;
use vstd::prelude::*;

verus! {

/// An IEEE-754 binary32 value, stored as its raw bit pattern.
#[derive(Clone, Copy, PartialEq, Eq, Structural, Debug)]
pub struct Scalar(pub u32);

pub const POS_ZERO: u32 = 0x0000_0000;
pub const NEG_ZERO: u32 = 0x8000_0000;
pub const ONE_BITS: u32 = 0x3F80_0000;
pub const NEG_ONE_BITS: u32 = 0xBF80_0000;
pub const HALF_BITS: u32 = 0x3F00_0000;
pub const PI_BITS: u32 = 0x4049_0FDB;
pub const NEG_PI_BITS: u32 = 0xC049_0FDB;
pub const HALF_PI_BITS: u32 = 0x3FC9_0FDB;
pub const NEG_HALF_PI_BITS: u32 = 0xBFC9_0FDB;
pub const QNAN_BITS: u32 = 0x7FC0_0000;

/// The gravitational constant of the force law, 6.67e-11 in binary32.
pub const GRAVITY_BITS: u32 = 0x2E92_ACC3;

pub open spec fn abs_bits(x: u32) -> u32 {
    x & 0x7FFF_FFFF
}

pub open spec fn sign_bit(x: u32) -> bool {
    x & 0x8000_0000 != 0
}

pub open spec fn is_nan_bits(x: u32) -> bool {
    abs_bits(x) > 0x7F80_0000
}

pub open spec fn is_finite_bits(x: u32) -> bool {
    abs_bits(x) < 0x7F80_0000
}

pub open spec fn is_zero_bits(x: u32) -> bool {
    abs_bits(x) == 0
}

pub open spec fn flip_sign_bits(x: u32) -> u32 {
    x ^ 0x8000_0000
}

/// IEEE-754 `<` on binary32 bit patterns: unordered when either side is NaN,
/// the two zeroes are equal, and otherwise sign-magnitude order.
pub open spec fn lt_bits(a: u32, b: u32) -> bool {
    if is_nan_bits(a) || is_nan_bits(b) {
        false
    } else if is_zero_bits(a) && is_zero_bits(b) {
        false
    } else if sign_bit(a) != sign_bit(b) {
        sign_bit(a)
    } else if sign_bit(a) {
        abs_bits(a) > abs_bits(b)
    } else {
        abs_bits(a) < abs_bits(b)
    }
}

pub fn scal_is_zero(x: Scalar) -> (r: bool)
    ensures
        r == is_zero_bits(x.0),
{
    x.0 & 0x7FFF_FFFF == 0
}

pub fn scal_is_finite(x: Scalar) -> (r: bool)
    ensures
        r == is_finite_bits(x.0),
{
    (x.0 & 0x7FFF_FFFF) < 0x7F80_0000
}

pub fn scal_lt(a: Scalar, b: Scalar) -> (r: bool)
    ensures
        r == lt_bits(a.0, b.0),
{
    let aa: u32 = a.0 & 0x7FFF_FFFF;
    let ab: u32 = b.0 & 0x7FFF_FFFF;
    if aa > 0x7F80_0000 || ab > 0x7F80_0000 {
        false
    } else if aa == 0 && ab == 0 {
        false
    } else {
        let sa: bool = a.0 & 0x8000_0000 != 0;
        let sb: bool = b.0 & 0x8000_0000 != 0;
        if sa != sb {
            sa
        } else if sa {
            aa > ab
        } else {
            aa < ab
        }
    }
}

/// Elementary facts about the named bit patterns that the solver cannot
/// compute for itself (bitwise operations are opaque outside `bit_vector`
/// proofs).
pub proof fn lemma_const_bits()
    ensures
        is_zero_bits(POS_ZERO),
        is_zero_bits(NEG_ZERO),
        !is_nan_bits(POS_ZERO),
        !is_nan_bits(NEG_ZERO),
        is_finite_bits(POS_ZERO),
        !sign_bit(POS_ZERO),
        sign_bit(NEG_ZERO),
        abs_bits(POS_ZERO) == 0,
        ((POS_ZERO ^ POS_ZERO) & 0x8000_0000) == POS_ZERO,
        flip_sign_bits(POS_ZERO) == NEG_ZERO,
        flip_sign_bits(NEG_ZERO) == POS_ZERO,
{
    assert(0u32 & 0x7FFF_FFFF == 0) by (bit_vector);
    assert(0x8000_0000u32 & 0x7FFF_FFFF == 0) by (bit_vector);
    assert(0u32 & 0x8000_0000 == 0) by (bit_vector);
    assert(0x8000_0000u32 & 0x8000_0000 != 0) by (bit_vector);
    assert((0u32 ^ 0u32) & 0x8000_0000 == 0) by (bit_vector);
    assert(0u32 ^ 0x8000_0000 == 0x8000_0000u32) by (bit_vector);
    assert(0x8000_0000u32 ^ 0x8000_0000 == 0u32) by (bit_vector);
}

pub uninterp spec fn single_add(a: u32, b: u32) -> u32;

pub uninterp spec fn single_sub(a: u32, b: u32) -> u32;

pub uninterp spec fn single_mul(a: u32, b: u32) -> u32;

pub uninterp spec fn single_div(a: u32, b: u32) -> u32;

/// Relies on `rustc_apfloat::ieee::Single::add_r` with round to nearest, ties
/// to even: IEEE-754 binary32 addition of the two bit patterns.  The second
/// clause is the IEEE identity (+0) + x == x, except (+0) + (-0) == +0.
#[verifier::external_body]
pub fn scal_add(a: Scalar, b: Scalar) -> (r: Scalar)
    ensures
        r.0 == single_add(a.0, b.0),
        a.0 == POS_ZERO && !is_nan_bits(b.0) ==> r.0 == (if b.0 == NEG_ZERO {
            POS_ZERO
        } else {
            b.0
        }),
{
    let x = rustc_apfloat::ieee::Single::from_bits(a.0 as u128);
    let y = rustc_apfloat::ieee::Single::from_bits(b.0 as u128);
    Scalar(x.add_r(y, rustc_apfloat::Round::NearestTiesToEven).value.to_bits() as u32)
}

/// Relies on `rustc_apfloat::ieee::Single::sub_r` with round to nearest, ties
/// to even: IEEE-754 binary32 subtraction.  The second clause is the IEEE
/// identity x - x == +0 for finite x.
#[verifier::external_body]
pub fn scal_sub(a: Scalar, b: Scalar) -> (r: Scalar)
    ensures
        r.0 == single_sub(a.0, b.0),
        a.0 == b.0 && is_finite_bits(a.0) ==> r.0 == POS_ZERO,
{
    let x = rustc_apfloat::ieee::Single::from_bits(a.0 as u128);
    let y = rustc_apfloat::ieee::Single::from_bits(b.0 as u128);
    Scalar(x.sub_r(y, rustc_apfloat::Round::NearestTiesToEven).value.to_bits() as u32)
}

/// Relies on `rustc_apfloat::ieee::Single::mul_r` with round to nearest, ties
/// to even: IEEE-754 binary32 multiplication.  The second clause is the IEEE
/// identity x * -1.0 == -x for any non-NaN x; the third gives the signed zero
/// of a zero-by-zero product.
#[verifier::external_body]
pub fn scal_mul(a: Scalar, b: Scalar) -> (r: Scalar)
    ensures
        r.0 == single_mul(a.0, b.0),
        b.0 == NEG_ONE_BITS && !is_nan_bits(a.0) ==> r.0 == flip_sign_bits(a.0),
        is_zero_bits(a.0) && is_zero_bits(b.0) ==> r.0 == ((a.0 ^ b.0) & 0x8000_0000),
{
    let x = rustc_apfloat::ieee::Single::from_bits(a.0 as u128);
    let y = rustc_apfloat::ieee::Single::from_bits(b.0 as u128);
    Scalar(x.mul_r(y, rustc_apfloat::Round::NearestTiesToEven).value.to_bits() as u32)
}

/// Relies on `rustc_apfloat::ieee::Single::div_r` with round to nearest, ties
/// to even: IEEE-754 binary32 division of the two bit patterns.
#[verifier::external_body]
pub fn scal_div(a: Scalar, b: Scalar) -> (r: Scalar)
    ensures
        r.0 == single_div(a.0, b.0),
{
    let x = rustc_apfloat::ieee::Single::from_bits(a.0 as u128);
    let y = rustc_apfloat::ieee::Single::from_bits(b.0 as u128);
    Scalar(x.div_r(y, rustc_apfloat::Round::NearestTiesToEven).value.to_bits() as u32)
}

} // verus!
