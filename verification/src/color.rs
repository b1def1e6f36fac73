//! Quantization of linear-light color channels to display integers.
//!
//! A rendered channel is a real number carried as an IEEE 754 binary64
//! value. The library cannot compute on such values directly, so every
//! function here takes the channel as its 64-bit pattern (`f64::to_bits`)
//! and works on the fields of the encoding: sign, biased exponent and
//! fraction. On that representation the quantization rule — clamp to
//! `[0, 0.999]`, scale by 256, truncate — is exact integer arithmetic,
//! and is stated and proved as such.

use crate::f64bits::{
    f64_bin_exp, f64_exp, f64_frac, f64_is_nan, f64_is_neg, f64_sig, lemma_pow2_le,
    lemma_sig_below,
};
use vstd::arithmetic::div_mod::{
    lemma_basic_div, lemma_div_is_ordered, lemma_div_multiples_vanish, lemma_multiply_divide_lt,
};
use vstd::arithmetic::mul::{lemma_mul_increases, lemma_mul_is_commutative};
use vstd::arithmetic::power2::{
    lemma2_to64, lemma2_to64_rest, lemma_pow2_adds, lemma_pow2_pos, pow2,
};
use vstd::bits::lemma_u64_shr_is_div;
use vstd::prelude::*;

verus! {

/// A quantized pixel: one display integer in 0..=255 per channel.
#[derive(Clone, Copy, PartialEq, Eq, Structural, Debug)]
pub struct Pixel {
    pub r: u8,
    pub g: u8,
    pub b: u8,
}

/// Floor of 256 times the magnitude encoded by `b` (for a finite,
/// NaN-free pattern). The magnitude is `sig * 2^(e - 1075)`, so 256
/// times it is `sig * 2^(e - 1067)`; integer division floors it.
pub open spec fn f64_mag_floor_256(b: u64) -> int {
    if f64_bin_exp(b) >= 1067 {
        (f64_sig(b) * pow2((f64_bin_exp(b) - 1067) as nat)) as int
    } else {
        f64_sig(b) as int / pow2((1067 - f64_bin_exp(b)) as nat) as int
    }
}

/// The channel quantization rule. A NaN or sign-negative channel yields 0;
/// a channel at or above the clamp ceiling yields 255; in between, the
/// channel is scaled by 256 and truncated. This equals clamping the value
/// to `[0, 0.999]`, multiplying by 256 and truncating toward zero, because
/// 255/256 lies below the ceiling: every value from there up yields 255.
pub open spec fn quantize_spec(b: u64) -> u8 {
    if f64_is_nan(b) || f64_is_neg(b) {
        0u8
    } else if f64_mag_floor_256(b) > 255 {
        255u8
    } else {
        f64_mag_floor_256(b) as u8
    }
}

/// Quantize one channel, handed over as the bit pattern of an IEEE 754
/// binary64 value. Returns the display integer the rendering rule asks
/// for: clamp to `[0, 0.999]`, scale by 256, truncate.
pub fn quantize_channel(b: u64) -> (q: u8)
    ensures
        q == quantize_spec(b),
{
    let exp: u64 = (b >> 52) & 0x7ff;
    let frac: u64 = b & 0xf_ffff_ffff_ffff;
    if exp == 0x7ff && frac != 0 {
        // NaN: the clamp passes it through and the integer conversion
        // at the end turns it into 0.
        return 0;
    }
    if b >> 63 == 1 {
        // Negative or negative zero: clamped up to 0.
        return 0;
    }
    if exp >= 1023 {
        // Magnitude at least 1 (infinity included): clamped to the
        // ceiling, which quantizes to 255.
        proof {
            lemma_mag_at_least_one(b);
        }
        return 255;
    }
    if exp <= 1014 {
        // Magnitude below 1/256 (subnormals included): truncates to 0.
        proof {
            lemma_mag_below_step(b);
        }
        return 0;
    }
    // Normal value with exponent field in 1015..=1022: the scaled floor
    // is the significand shifted right by 45..=52 places.
    let sig: u64 = frac | 0x10_0000_0000_0000;
    let shift: u64 = 1067 - exp;
    let q: u64 = sig >> shift;
    proof {
        lemma_mag_midrange(b, sig, shift);
    }
    q as u8
}

/// For a NaN-free, non-negative pattern with exponent field at least
/// 1023, the scaled floor exceeds 255.
proof fn lemma_mag_at_least_one(b: u64)
    requires
        !f64_is_nan(b),
        f64_exp(b) >= 1023,
    ensures
        f64_mag_floor_256(b) > 255,
{
    lemma2_to64();
    lemma2_to64_rest();
    let sig = f64_sig(b);
    let e = f64_bin_exp(b);
    assert(sig >= pow2(52));
    if e >= 1067 {
        let k = (e - 1067) as nat;
        lemma_pow2_pos(k);
        lemma_mul_is_commutative(sig as int, pow2(k) as int);
        lemma_mul_increases(pow2(k) as int, sig as int);
        assert(f64_mag_floor_256(b) >= sig);
    } else {
        let k = (1067 - e) as nat;
        assert(k <= 44);
        lemma_pow2_pos(k);
        lemma_pow2_adds(k, (52 - k) as nat);
        lemma_pow2_le(8, (52 - k) as nat);
        assert(pow2(52) == pow2(k) * pow2((52 - k) as nat));
        lemma_mul_increases(pow2((52 - k) as nat) as int, pow2(k) as int);
        assert(pow2(k) * pow2((52 - k) as nat) >= pow2(k) * 256) by {
            lemma_mul_is_commutative(pow2(k) as int, pow2((52 - k) as nat) as int);
            vstd::arithmetic::mul::lemma_mul_inequality(
                256,
                pow2((52 - k) as nat) as int,
                pow2(k) as int,
            );
            lemma_mul_is_commutative(pow2(k) as int, 256);
        }
        lemma_div_is_ordered(pow2(k) as int * 256, sig as int, pow2(k) as int);
        lemma_div_multiples_vanish(256, pow2(k) as int);
        assert((pow2(k) as int * 256) / (pow2(k) as int) == 256) by {
            lemma_mul_is_commutative(pow2(k) as int, 256);
        }
        assert(f64_mag_floor_256(b) >= 256);
    }
}

/// For a non-negative pattern with exponent field at most 1014, the
/// scaled floor is 0: the magnitude lies below 1/256.
proof fn lemma_mag_below_step(b: u64)
    requires
        f64_exp(b) <= 1014,
        !f64_is_neg(b),
    ensures
        quantize_spec(b) == 0,
{
    let e = f64_bin_exp(b);
    let k = (1067 - e) as nat;
    assert(k >= 53);
    lemma_sig_below(b);
    lemma_pow2_le(53, k);
    lemma_pow2_pos(k);
    lemma_basic_div(f64_sig(b) as int, pow2(k) as int);
}

/// In the middle range the scaled floor is the shifted significand,
/// and it fits in a byte.
proof fn lemma_mag_midrange(b: u64, sig: u64, shift: u64)
    requires
        1015 <= f64_exp(b) <= 1022,
        !f64_is_neg(b),
        sig == f64_frac(b) | 0x10_0000_0000_0000,
        shift == 1067 - f64_exp(b),
    ensures
        f64_mag_floor_256(b) == sig >> shift,
        sig >> shift <= 255,
        quantize_spec(b) == (sig >> shift) as u8,
{
    lemma2_to64();
    lemma2_to64_rest();
    let frac = f64_frac(b);
    assert(frac | 0x10_0000_0000_0000 == frac + 0x10_0000_0000_0000) by (bit_vector)
        requires
            frac == b & 0xf_ffff_ffff_ffff,
    ;
    assert(sig == f64_sig(b));
    lemma_u64_shr_is_div(sig, shift);
    let k = shift as nat;
    assert(45 <= k <= 52);
    lemma_sig_below(b);
    lemma_pow2_adds(k, (53 - k) as nat);
    lemma_pow2_le((53 - k) as nat, 8);
    assert(pow2(k) * pow2((53 - k) as nat) <= pow2(k) * 256) by {
        lemma_mul_is_commutative(pow2(k) as int, pow2((53 - k) as nat) as int);
        vstd::arithmetic::mul::lemma_mul_inequality(
            pow2((53 - k) as nat) as int,
            256,
            pow2(k) as int,
        );
        lemma_mul_is_commutative(pow2(k) as int, 256);
    }
    lemma_multiply_divide_lt(sig as int, pow2(k) as int, 256);
    assert(f64_mag_floor_256(b) == sig as int / pow2(k) as int);
}

/// Quantize the three channels of a color, each handed over as a
/// binary64 bit pattern.
pub fn quantize_color(r: u64, g: u64, b: u64) -> (p: Pixel)
    ensures
        p.r == quantize_spec(r),
        p.g == quantize_spec(g),
        p.b == quantize_spec(b),
{
    Pixel { r: quantize_channel(r), g: quantize_channel(g), b: quantize_channel(b) }
}

/// The pixel a color quantizes to, channel by channel.
pub open spec fn quantized(r: u64, g: u64, b: u64) -> Pixel {
    Pixel { r: quantize_spec(r), g: quantize_spec(g), b: quantize_spec(b) }
}

/// Quantize a gamma-corrected color — three binary64 bit patterns — and
/// append its text line to `out`. This is the whole per-pixel output
/// step after the caller's gamma map (a square root, floating point,
/// outside this library).
pub fn write_color(out: &mut Vec<u8>, r: u64, g: u64, b: u64)
    ensures
        final(out)@ == old(out)@ + crate::image::pixel_line(quantized(r, g, b)),
{
    let p = quantize_color(r, g, b);
    crate::image::push_pixel_line(out, p);
}

} // verus!
