//! Solid colors and the host-alpha conversion.
//!
//! The host supplies a fill's opacity as a single-precision value in
//! `[0.0, 1.0]`; the stored alpha is `floor(a * 255)` clamped to one byte.
//! The conversion is done here on the IEEE-754 bit pattern with integer
//! arithmetic alone, so its result is pinned exactly.

use vstd::arithmetic::power2::{lemma2_to64, lemma_pow2_pos, lemma_pow2_strictly_increases, pow2};
use vstd::prelude::*;

verus! {

/// An RGBA color with the alpha already resolved to a byte.
#[derive(Clone, Copy, PartialEq, Eq, Structural, Debug)]
pub struct Color {
    pub r: u8,
    pub g: u8,
    pub b: u8,
    pub a: u8,
}

/// `floor(v * 255)` clamped to `[0, 255]`, where `v` is the real number
/// whose single-precision bit pattern is `bits`.
///
/// Decoded directly from the IEEE-754 fields: for a finite non-negative
/// value with significand `m` and binary exponent `e` (so `v = m * 2^e`),
/// the product is `m * 255 * 2^e`, and its floor for `e < 0` is the integer
/// division by `2^-e`. Negative values and NaN give 0; values of one or
/// more (and positive infinity) give 255.
pub open spec fn spec_alpha_byte(bits: u32) -> u8 {
    let sign = bits >> 31;
    let exp = (bits >> 23) & 0xff;
    let frac = bits & 0x7f_ffff;
    if exp == 0xff {
        // infinities and NaN
        if frac != 0 {
            0
        } else if sign == 1 {
            0
        } else {
            255
        }
    } else if sign == 1 {
        // negative values floor below zero; clamped to 0
        0
    } else {
        let m = if exp == 0 { frac as int } else { frac as int + 0x80_0000 };
        let e = (if exp == 0 { 1int } else { exp as int }) - 150;
        if e >= 0 {
            // the value is at least 2^23, far above one
            255
        } else {
            let scaled = (m * 255) / (pow2((0 - e) as nat) as int);
            if scaled >= 255 {
                255
            } else {
                scaled as u8
            }
        }
    }
}

/// Converts a host-supplied opacity, given as the bit pattern of a
/// single-precision value, to the stored alpha byte `floor(v * 255)`
/// clamped to `[0, 255]` (NaN and negative values give 0).
pub fn alpha_byte(bits: u32) -> (r: u8)
    ensures
        r == spec_alpha_byte(bits),
{
    let sign: u32 = bits >> 31;
    let exp: u32 = (bits >> 23) & 0xff;
    let frac: u32 = bits & 0x7f_ffff;
    if exp == 0xff {
        if frac != 0 {
            0
        } else if sign == 1 {
            0
        } else {
            255
        }
    } else if sign == 1 {
        0
    } else {
        assert(bits & 0x7f_ffff < 0x80_0000) by (bit_vector);
        let m: u64 = if exp == 0 { frac as u64 } else { (frac as u64) + 0x80_0000 };
        let ebase: u32 = if exp == 0 { 1 } else { exp };
        if ebase >= 150 {
            255
        } else {
            let k: u32 = 150 - ebase;
            let scaled: u64 = m * 255;
            let shifted: u64 = if k >= 64 { 0 } else { scaled >> (k as u64) };
            proof {
                if k < 64 {
                    vstd::bits::lemma_u64_shr_is_div(scaled, k as u64);
                } else {
                    lemma_pow2_strictly_increases(32, k as nat);
                    lemma2_to64();
                    lemma_pow2_pos(k as nat);
                    assert((scaled as int) / (pow2(k as nat) as int) == 0) by (nonlinear_arith)
                        requires
                            0 <= (scaled as int),
                            (scaled as int) < (pow2(k as nat) as int),
                    ;
                }
            }
            if shifted >= 255 {
                255
            } else {
                shifted as u8
            }
        }
    }
}

} // verus!
