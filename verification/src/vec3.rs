//! The integer-exact part of the vector kernel.
//!
//! The 3-vector type itself and its arithmetic are floating point and
//! live with the program around this library. One of its predicates is
//! exact integer arithmetic on the binary64 encoding and is verified
//! here: the guard that a scatter direction is nearly the zero vector,
//! meaning every component's magnitude lies below the fixed epsilon
//! 1e-8 — the degenerate case a diffuse bounce must avoid.

use crate::f64bits::{
    f64_bin_exp, f64_exp, f64_frac, f64_mag_scaled, f64_sig, lemma_pow2_le, lemma_sig_below,
};
use vstd::arithmetic::mul::{
    lemma_mul_inequality, lemma_mul_is_commutative, lemma_mul_strict_inequality,
};
use vstd::arithmetic::power2::{lemma2_to64_rest, lemma_pow2_adds, lemma_pow2_pos, pow2};
use vstd::prelude::*;

verus! {

/// The bit pattern of the epsilon below which a component counts as
/// zero: the binary64 value closest to 1e-8.
pub const NEAR_ZERO_EPS_BITS: u64 = 0x3e45_798e_e230_8c3a;

/// A component is nearly zero when its magnitude lies below the epsilon.
/// NaN components are not nearly zero, as no order places them below it.
pub open spec fn component_near_zero(b: u64) -> bool {
    f64_mag_scaled(b) < f64_mag_scaled(NEAR_ZERO_EPS_BITS)
}

/// A vector is nearly the zero vector when each of its components is,
/// whatever their signs. Components are handed over as binary64 bit
/// patterns.
pub fn is_near_zero(x: u64, y: u64, z: u64) -> (r: bool)
    ensures
        r <==> (component_near_zero(x) && component_near_zero(y) && component_near_zero(z)),
{
    proof {
        lemma_below_eps_bits(x);
        lemma_below_eps_bits(y);
        lemma_below_eps_bits(z);
    }
    (x & 0x7fff_ffff_ffff_ffff) < NEAR_ZERO_EPS_BITS && (y & 0x7fff_ffff_ffff_ffff)
        < NEAR_ZERO_EPS_BITS && (z & 0x7fff_ffff_ffff_ffff) < NEAR_ZERO_EPS_BITS
}

/// With the sign bit cleared, bit patterns order as the magnitudes they
/// encode, here against the fixed epsilon: the comparison of the bits is
/// the comparison of the scaled magnitudes.
proof fn lemma_below_eps_bits(b: u64)
    ensures
        ((b & 0x7fff_ffff_ffff_ffff) < NEAR_ZERO_EPS_BITS) <==> component_near_zero(b),
{
    lemma2_to64_rest();
    let exp = f64_exp(b);
    let frac = f64_frac(b);
    // The epsilon's fields, read off its bit pattern.
    assert(f64_exp(NEAR_ZERO_EPS_BITS) == 996 && f64_frac(NEAR_ZERO_EPS_BITS)
        == 0x5_798e_e230_8c3a) by (bit_vector);
    let esig = f64_sig(NEAR_ZERO_EPS_BITS);
    assert(f64_bin_exp(NEAR_ZERO_EPS_BITS) == 996);
    // Clearing the sign bit orders the pattern lexicographically by
    // exponent field, then fraction field.
    assert(((b & 0x7fff_ffff_ffff_ffff) < 0x3e45_798e_e230_8c3a) <==> ((b >> 52) & 0x7ff < 996 || (
    (b >> 52) & 0x7ff == 996 && b & 0xf_ffff_ffff_ffff < 0x5_798e_e230_8c3a))) by (bit_vector);
    lemma_sig_below(b);
    lemma_sig_below(NEAR_ZERO_EPS_BITS);
    if exp < 996 {
        // Magnitude below 2^53 * 2^995 = 2^1048 <= the epsilon's.
        assert(f64_bin_exp(b) <= 995);
        lemma_pow2_pos(f64_bin_exp(b));
        lemma_mul_strict_inequality(f64_sig(b) as int, pow2(53) as int, pow2(
            f64_bin_exp(b),
        ) as int);
        lemma_mul_is_commutative(f64_sig(b) as int, pow2(f64_bin_exp(b)) as int);
        lemma_mul_is_commutative(pow2(53) as int, pow2(f64_bin_exp(b)) as int);
        lemma_pow2_le(f64_bin_exp(b), 995);
        lemma_mul_inequality(pow2(f64_bin_exp(b)) as int, pow2(995) as int, pow2(53) as int);
        lemma_mul_is_commutative(pow2(995) as int, pow2(53) as int);
        lemma_pow2_adds(53, 995);
        assert(f64_mag_scaled(b) < pow2(1048));
        lemma_pow2_adds(52, 996);
        lemma_mul_inequality(pow2(52) as int, esig as int, pow2(996) as int);
        assert(f64_mag_scaled(NEAR_ZERO_EPS_BITS) >= pow2(1048));
    } else if exp == 996 {
        // Shared scale: the significands decide, and they share the
        // implicit bit, so the fractions decide.
        lemma_pow2_pos(996);
        if frac < f64_frac(NEAR_ZERO_EPS_BITS) {
            lemma_mul_strict_inequality(f64_sig(b) as int, esig as int, pow2(996) as int);
        } else {
            lemma_mul_inequality(esig as int, f64_sig(b) as int, pow2(996) as int);
        }
    } else {
        // Magnitude at least 2^52 * 2^997 = 2^1049 > the epsilon's.
        assert(f64_bin_exp(b) >= 997);
        assert(f64_sig(b) >= pow2(52));
        lemma_pow2_pos(f64_bin_exp(b));
        lemma_mul_inequality(pow2(52) as int, f64_sig(b) as int, pow2(f64_bin_exp(b)) as int);
        lemma_pow2_adds(52, f64_bin_exp(b));
        lemma_pow2_le(1049, (52 + f64_bin_exp(b)) as nat);
        assert(f64_mag_scaled(b) >= pow2(1049));
        lemma_pow2_pos(996);
        lemma_mul_strict_inequality(esig as int, pow2(53) as int, pow2(996) as int);
        lemma_pow2_adds(53, 996);
        assert(f64_mag_scaled(NEAR_ZERO_EPS_BITS) < pow2(1049));
    }
}

} // verus!
