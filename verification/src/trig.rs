//! Arctangent, sine and cosine on binary32 bit patterns.
//!
//! The direction of a gravitational force is obtained from an angle, so the
//! engine needs `atan`, `sin` and `cos` at single precision.  The values are
//! computed by `astro_float::BigFloat` at 64-bit precision from the unpacked
//! mantissa, sign and exponent of the argument, and the 64-bit result is
//! rounded here, in verified code, to the nearest binary32 value (ties to
//! even).  Unpacking and rounding are pure bit logic and fully verified; only
//! the 64-bit function value itself is taken on trust.
//!
//! Arguments so small that the function value rounds to the argument itself
//! (or to one, for the cosine) are answered directly: below 2^-13 the cubic
//! term of the series is smaller than half an ulp of the result.

use vstd::prelude::*;

use crate::fp::Scalar;
use crate::fp::abs_bits;
use crate::fp::is_nan_bits;
use crate::fp::sign_bit;
use crate::fp::HALF_PI_BITS;
use crate::fp::NEG_HALF_PI_BITS;
use crate::fp::NEG_ZERO;
use crate::fp::ONE_BITS;
use crate::fp::POS_ZERO;
use crate::fp::QNAN_BITS;

verus! {

/// Largest biased exponent treated as "tiny": |x| < 2^-13.
pub const TINY_EXP_FIELD: u32 = 113;

/// The unpacked form of a nonzero finite binary32 value: the value is
/// (-1)^neg * (m / 2^64) * 2^e, with the top bit of `m` set.
pub open spec fn spec_decompose(x: u32) -> (bool, u64, i32) {
    (
        sign_bit(x),
        (((x & 0x007F_FFFF) | 0x0080_0000) as u64) << 40,
        ((((x >> 23) & 0xFF) - 126) as i32),
    )
}

fn decompose(x: u32) -> (r: (bool, u64, i32))
    requires
        1 <= (x >> 23) & 0xFF < 255,
    ensures
        r == spec_decompose(x),
{
    let neg: bool = x & 0x8000_0000 != 0;
    let m: u64 = (((x & 0x007F_FFFF) | 0x0080_0000) as u64) << 40;
    let ef: u32 = (x >> 23) & 0xFF;
    let e: i32 = (ef as i32) - 126;
    proof {
        assert(neg == sign_bit(x));
        assert(e == ((((x >> 23) & 0xFF) - 126) as i32));
    }
    (neg, m, e)
}

/// Rounds the value (-1)^neg * (m / 2^64) * 2^e to the nearest binary32
/// pattern, ties to even.  A mantissa without its top bit set stands for
/// zero; magnitudes below the normal range collapse to a signed zero and
/// magnitudes above it to a signed infinity.
pub open spec fn spec_round_single(neg: bool, m: u64, e: i32) -> u32 {
    let sign: u32 = if neg {
        NEG_ZERO
    } else {
        POS_ZERO
    };
    if m < 0x8000_0000_0000_0000 {
        sign
    } else if e < -125 {
        sign
    } else if e > 128 {
        sign | 0x7F80_0000
    } else {
        let top = m >> 40;
        let rest = m & 0xFF_FFFF_FFFF;
        let up = rest > 0x80_0000_0000 || (rest == 0x80_0000_0000 && top & 1 == 1);
        let mant: u64 = if up {
            (top + 1) as u64
        } else {
            top
        };
        if mant == 0x100_0000 {
            if e == 128 {
                sign | 0x7F80_0000
            } else {
                sign | (((e + 127) as u32) << 23)
            }
        } else {
            sign | (((e + 126) as u32) << 23) | ((mant as u32) & 0x007F_FFFF)
        }
    }
}

fn round_single(neg: bool, m: u64, e: i32) -> (r: u32)
    ensures
        r == spec_round_single(neg, m, e),
{
    let sign: u32 = if neg {
        0x8000_0000
    } else {
        0x0000_0000
    };
    if m < 0x8000_0000_0000_0000 {
        sign
    } else if e < -125 {
        sign
    } else if e > 128 {
        sign | 0x7F80_0000
    } else {
        let top: u64 = m >> 40;
        assert(top < 0x100_0000) by (bit_vector)
            requires
                top == m >> 40,
        ;
        let rest: u64 = m & 0xFF_FFFF_FFFF;
        let up: bool = rest > 0x80_0000_0000 || (rest == 0x80_0000_0000 && top & 1 == 1);
        let mant: u64 = if up {
            top + 1
        } else {
            top
        };
        if mant == 0x100_0000 {
            if e == 128 {
                sign | 0x7F80_0000
            } else {
                sign | (((e + 127) as u32) << 23)
            }
        } else {
            sign | (((e + 126) as u32) << 23) | ((mant as u32) & 0x007F_FFFF)
        }
    }
}

pub uninterp spec fn atan_parts(m: u64, neg: bool, e: i32) -> (u64, bool, i32);

pub uninterp spec fn sin_parts(m: u64, neg: bool, e: i32) -> (u64, bool, i32);

pub uninterp spec fn cos_parts(m: u64, neg: bool, e: i32) -> (u64, bool, i32);

/// Relies on `astro_float::BigFloat::atan` at 64-bit precision, round to
/// nearest even: the arctangent of (-1)^neg * (m / 2^64) * 2^e, handed back
/// as the same kind of mantissa word, sign and exponent.  The result depends
/// on the arguments alone.
#[verifier::external_body]
fn atan_single_parts(m: u64, neg: bool, e: i32) -> (r: (u64, bool, i32))
    ensures
        r == atan_parts(m, neg, e),
{
    let mut cc = astro_float::Consts::new().expect("trig constants cache");
    let s = if neg { astro_float::Sign::Neg } else { astro_float::Sign::Pos };
    let x = astro_float::BigFloat::from_words(&[m], s, e);
    let y = x.atan(64, astro_float::RoundingMode::ToEven, &mut cc);
    match y.as_raw_parts() {
        Some((w, _, ys, ye, _)) => (w[0], matches!(ys, astro_float::Sign::Neg), ye),
        None => (0, false, 0),
    }
}

/// Relies on `astro_float::BigFloat::sin` at 64-bit precision, round to
/// nearest even: the sine of (-1)^neg * (m / 2^64) * 2^e, handed back as a
/// mantissa word, sign and exponent.  The result depends on the arguments
/// alone.
#[verifier::external_body]
fn sin_single_parts(m: u64, neg: bool, e: i32) -> (r: (u64, bool, i32))
    ensures
        r == sin_parts(m, neg, e),
{
    let mut cc = astro_float::Consts::new().expect("trig constants cache");
    let s = if neg { astro_float::Sign::Neg } else { astro_float::Sign::Pos };
    let x = astro_float::BigFloat::from_words(&[m], s, e);
    let y = x.sin(64, astro_float::RoundingMode::ToEven, &mut cc);
    match y.as_raw_parts() {
        Some((w, _, ys, ye, _)) => (w[0], matches!(ys, astro_float::Sign::Neg), ye),
        None => (0, false, 0),
    }
}

/// Relies on `astro_float::BigFloat::cos` at 64-bit precision, round to
/// nearest even: the cosine of (-1)^neg * (m / 2^64) * 2^e, handed back as a
/// mantissa word, sign and exponent.  The result depends on the arguments
/// alone.
#[verifier::external_body]
fn cos_single_parts(m: u64, neg: bool, e: i32) -> (r: (u64, bool, i32))
    ensures
        r == cos_parts(m, neg, e),
{
    let mut cc = astro_float::Consts::new().expect("trig constants cache");
    let s = if neg { astro_float::Sign::Neg } else { astro_float::Sign::Pos };
    let x = astro_float::BigFloat::from_words(&[m], s, e);
    let y = x.cos(64, astro_float::RoundingMode::ToEven, &mut cc);
    match y.as_raw_parts() {
        Some((w, _, ys, ye, _)) => (w[0], matches!(ys, astro_float::Sign::Neg), ye),
        None => (0, false, 0),
    }
}

/// The arctangent of a binary32 bit pattern, in radians.
pub open spec fn spec_atan(x: u32) -> u32 {
    if is_nan_bits(x) {
        QNAN_BITS
    } else if abs_bits(x) == 0x7F80_0000 {
        if sign_bit(x) {
            NEG_HALF_PI_BITS
        } else {
            HALF_PI_BITS
        }
    } else if (x >> 23) & 0xFF <= TINY_EXP_FIELD {
        x
    } else {
        let (neg, m, e) = spec_decompose(x);
        let (rm, rneg, re) = atan_parts(m, neg, e);
        spec_round_single(rneg, rm, re)
    }
}

/// The sine of a binary32 bit pattern.
pub open spec fn spec_sin(x: u32) -> u32 {
    if is_nan_bits(x) || abs_bits(x) == 0x7F80_0000 {
        QNAN_BITS
    } else if (x >> 23) & 0xFF <= TINY_EXP_FIELD {
        x
    } else {
        let (neg, m, e) = spec_decompose(x);
        let (rm, rneg, re) = sin_parts(m, neg, e);
        spec_round_single(rneg, rm, re)
    }
}

/// The cosine of a binary32 bit pattern.
pub open spec fn spec_cos(x: u32) -> u32 {
    if is_nan_bits(x) || abs_bits(x) == 0x7F80_0000 {
        QNAN_BITS
    } else if (x >> 23) & 0xFF <= TINY_EXP_FIELD {
        ONE_BITS
    } else {
        let (neg, m, e) = spec_decompose(x);
        let (rm, rneg, re) = cos_parts(m, neg, e);
        spec_round_single(rneg, rm, re)
    }
}

pub fn scal_atan(x: Scalar) -> (r: Scalar)
    ensures
        r.0 == spec_atan(x.0),
{
    let xb: u32 = x.0;
    let a: u32 = xb & 0x7FFF_FFFF;
    if a > 0x7F80_0000 {
        Scalar(QNAN_BITS)
    } else if a == 0x7F80_0000 {
        if xb & 0x8000_0000 != 0 {
            Scalar(NEG_HALF_PI_BITS)
        } else {
            Scalar(HALF_PI_BITS)
        }
    } else if (xb >> 23) & 0xFF <= TINY_EXP_FIELD {
        x
    } else {
        proof {
            assert((xb >> 23) & 0xFF < 255) by (bit_vector)
                requires
                    xb & 0x7FFF_FFFF < 0x7F80_0000,
            ;
        }
        let (neg, m, e) = decompose(xb);
        let (rm, rneg, re) = atan_single_parts(m, neg, e);
        Scalar(round_single(rneg, rm, re))
    }
}

pub fn scal_sin(x: Scalar) -> (r: Scalar)
    ensures
        r.0 == spec_sin(x.0),
{
    let xb: u32 = x.0;
    let a: u32 = xb & 0x7FFF_FFFF;
    if a >= 0x7F80_0000 {
        Scalar(QNAN_BITS)
    } else if (xb >> 23) & 0xFF <= TINY_EXP_FIELD {
        x
    } else {
        proof {
            assert((xb >> 23) & 0xFF < 255) by (bit_vector)
                requires
                    xb & 0x7FFF_FFFF < 0x7F80_0000,
            ;
        }
        let (neg, m, e) = decompose(xb);
        let (rm, rneg, re) = sin_single_parts(m, neg, e);
        Scalar(round_single(rneg, rm, re))
    }
}

pub fn scal_cos(x: Scalar) -> (r: Scalar)
    ensures
        r.0 == spec_cos(x.0),
{
    let xb: u32 = x.0;
    let a: u32 = xb & 0x7FFF_FFFF;
    if a >= 0x7F80_0000 {
        Scalar(QNAN_BITS)
    } else if (xb >> 23) & 0xFF <= TINY_EXP_FIELD {
        Scalar(ONE_BITS)
    } else {
        proof {
            assert((xb >> 23) & 0xFF < 255) by (bit_vector)
                requires
                    xb & 0x7FFF_FFFF < 0x7F80_0000,
            ;
        }
        let (neg, m, e) = decompose(xb);
        let (rm, rneg, re) = cos_single_parts(m, neg, e);
        Scalar(round_single(rneg, rm, re))
    }
}

} // verus!
