//! The IEEE 754 binary64 encoding, read as integers.
//!
//! The numeric kernel of the tracer runs on `f64` values, which the
//! verifier does not accept; wherever a rule on such a value is exact
//! integer arithmetic, the library takes the value as its 64-bit pattern
//! (`f64::to_bits`) and works on the fields of the encoding. This module
//! holds the field readers and the integer magnitude they define: a
//! finite pattern `b` encodes the magnitude `f64_sig(b) *
//! 2^(f64_bin_exp(b) - 1075)`.

use vstd::arithmetic::mul::{
    lemma_mul_inequality, lemma_mul_strict_inequality,
};
use vstd::arithmetic::power2::{
    lemma2_to64_rest, lemma_pow2_adds, lemma_pow2_pos, lemma_pow2_strictly_increases, pow2,
};
use vstd::prelude::*;

verus! {

/// Sign bit of a binary64 bit pattern.
pub open spec fn f64_is_neg(b: u64) -> bool {
    b >> 63 == 1
}

/// Biased exponent field of a binary64 bit pattern.
pub open spec fn f64_exp(b: u64) -> u64 {
    (b >> 52) & 0x7ff
}

/// Fraction field of a binary64 bit pattern.
pub open spec fn f64_frac(b: u64) -> u64 {
    b & 0xf_ffff_ffff_ffff
}

/// A binary64 bit pattern encodes NaN when the exponent field is all
/// ones and the fraction is not zero.
pub open spec fn f64_is_nan(b: u64) -> bool {
    f64_exp(b) == 0x7ff && f64_frac(b) != 0
}

/// Integer significand of the encoded value: the fraction with the
/// implicit leading bit added for normal values.
pub open spec fn f64_sig(b: u64) -> nat {
    if f64_exp(b) == 0 {
        f64_frac(b) as nat
    } else {
        (pow2(52) + f64_frac(b)) as nat
    }
}

/// Exponent of the encoded value on the scale of the significand:
/// subnormal values (exponent field 0) share the scale of the smallest
/// normal ones.
pub open spec fn f64_bin_exp(b: u64) -> nat {
    if f64_exp(b) == 0 {
        1nat
    } else {
        f64_exp(b) as nat
    }
}

/// The magnitude encoded by a finite, NaN-free pattern, scaled by the
/// fixed factor 2^1075 so that it is an integer: `|value(b)| * 2^1075`.
/// The sign bit plays no part.
pub open spec fn f64_mag_scaled(b: u64) -> nat {
    f64_sig(b) * pow2(f64_bin_exp(b))
}

/// `pow2` is monotone (not necessarily strictly).
pub proof fn lemma_pow2_le(e1: nat, e2: nat)
    requires
        e1 <= e2,
    ensures
        pow2(e1) <= pow2(e2),
{
    if e1 < e2 {
        lemma_pow2_strictly_increases(e1, e2);
    }
}

/// The significand of any pattern is below 2^53.
pub proof fn lemma_sig_below(b: u64)
    ensures
        f64_sig(b) < pow2(53),
        f64_frac(b) < pow2(52),
{
    lemma2_to64_rest();
    assert(f64_frac(b) < 0x10_0000_0000_0000) by (bit_vector);
}

/// The value encoded by `a` lies strictly below the value encoded by
/// `b`, for NaN-free patterns: by sign first, then by magnitude — with
/// the two zeros equal whatever their signs.
pub open spec fn f64_val_lt(a: u64, b: u64) -> bool {
    if f64_is_neg(a) {
        if f64_is_neg(b) {
            f64_mag_scaled(b) < f64_mag_scaled(a)
        } else {
            f64_mag_scaled(a) != 0 || f64_mag_scaled(b) != 0
        }
    } else {
        if f64_is_neg(b) {
            false
        } else {
            f64_mag_scaled(a) < f64_mag_scaled(b)
        }
    }
}

/// The two patterns encode one value: equal magnitudes and, unless that
/// magnitude is zero, equal signs.
pub open spec fn f64_val_eq(a: u64, b: u64) -> bool {
    f64_mag_scaled(a) == f64_mag_scaled(b) && (f64_is_neg(a) == f64_is_neg(b) || f64_mag_scaled(a)
        == 0)
}

/// A pattern that is lexicographically smaller by exponent field, then
/// fraction field, encodes a strictly smaller magnitude.
proof fn lemma_lex_mag(x: u64, y: u64)
    requires
        f64_exp(x) < f64_exp(y) || (f64_exp(x) == f64_exp(y) && f64_frac(x) < f64_frac(y)),
    ensures
        f64_mag_scaled(x) < f64_mag_scaled(y),
{
    lemma2_to64_rest();
    lemma_sig_below(x);
    lemma_sig_below(y);
    let bx = f64_bin_exp(x);
    let by = f64_bin_exp(y);
    lemma_pow2_pos(bx);
    lemma_pow2_pos(by);
    if f64_exp(x) == f64_exp(y) || (f64_exp(x) == 0 && f64_exp(y) == 1) {
        // One scale: the significands decide.
        assert(bx == by);
        assert(f64_sig(x) < f64_sig(y));
        lemma_mul_strict_inequality(f64_sig(x) as int, f64_sig(y) as int, pow2(bx) as int);
    } else {
        // The scales differ by at least one binary place, which outweighs
        // any significand: mag(x) < 2^(53 + bx) <= 2^(52 + by) <= mag(y).
        assert(by >= bx + 1);
        lemma_mul_strict_inequality(f64_sig(x) as int, pow2(53) as int, pow2(bx) as int);
        lemma_pow2_adds(53, bx);
        lemma_pow2_adds(52, by);
        lemma_pow2_le((53 + bx) as nat, (52 + by) as nat);
        assert(f64_sig(y) >= pow2(52));
        lemma_mul_inequality(pow2(52) as int, f64_sig(y) as int, pow2(by) as int);
    }
}

/// With the sign bit cleared, bit patterns order exactly as the
/// magnitudes they encode.
pub proof fn lemma_mag_order(x: u64, y: u64)
    ensures
        ((x & 0x7fff_ffff_ffff_ffff) < (y & 0x7fff_ffff_ffff_ffff)) <==> f64_mag_scaled(x)
            < f64_mag_scaled(y),
        ((x & 0x7fff_ffff_ffff_ffff) == (y & 0x7fff_ffff_ffff_ffff)) <==> f64_mag_scaled(x)
            == f64_mag_scaled(y),
{
    assert(((x & 0x7fff_ffff_ffff_ffff) < (y & 0x7fff_ffff_ffff_ffff)) <==> ((x >> 52) & 0x7ff < (y
        >> 52) & 0x7ff || ((x >> 52) & 0x7ff == (y >> 52) & 0x7ff && x & 0xf_ffff_ffff_ffff < y
        & 0xf_ffff_ffff_ffff))) by (bit_vector);
    assert(((x & 0x7fff_ffff_ffff_ffff) == (y & 0x7fff_ffff_ffff_ffff)) <==> ((x >> 52) & 0x7ff == (
    y >> 52) & 0x7ff && x & 0xf_ffff_ffff_ffff == y & 0xf_ffff_ffff_ffff)) by (bit_vector);
    if f64_exp(x) < f64_exp(y) || (f64_exp(x) == f64_exp(y) && f64_frac(x) < f64_frac(y)) {
        lemma_lex_mag(x, y);
    } else if f64_exp(y) < f64_exp(x) || (f64_exp(y) == f64_exp(x) && f64_frac(y) < f64_frac(x)) {
        lemma_lex_mag(y, x);
    }
}

/// A pattern whose magnitude bits are all clear encodes magnitude zero,
/// and no other pattern does.
proof fn lemma_mag_zero(x: u64)
    ensures
        (x & 0x7fff_ffff_ffff_ffff == 0) <==> f64_mag_scaled(x) == 0,
{
    assert((x & 0x7fff_ffff_ffff_ffff == 0) <==> ((x >> 52) & 0x7ff == 0 && x & 0xf_ffff_ffff_ffff
        == 0)) by (bit_vector);
    lemma_pow2_pos(f64_bin_exp(x));
    lemma_pow2_pos(52);
    if f64_exp(x) == 0 {
        vstd::arithmetic::mul::lemma_mul_by_zero_is_zero(pow2(f64_bin_exp(x)) as int);
        if f64_frac(x) != 0 {
            lemma_mul_inequality(1, f64_sig(x) as int, pow2(f64_bin_exp(x)) as int);
        }
    } else {
        lemma_mul_inequality(1, f64_sig(x) as int, pow2(f64_bin_exp(x)) as int);
    }
}

/// Strict order of two NaN-free binary64 values, decided on their bit
/// patterns. With a NaN on either side no order holds, as for the
/// values themselves.
pub fn f64_lt(a: u64, b: u64) -> (r: bool)
    ensures
        r <==> (!f64_is_nan(a) && !f64_is_nan(b) && f64_val_lt(a, b)),
{
    let ea: u64 = (a >> 52) & 0x7ff;
    let eb: u64 = (b >> 52) & 0x7ff;
    if (ea == 0x7ff && a & 0xf_ffff_ffff_ffff != 0) || (eb == 0x7ff && b & 0xf_ffff_ffff_ffff
        != 0) {
        return false;
    }
    proof {
        lemma_mag_order(a, b);
        lemma_mag_zero(a);
        lemma_mag_zero(b);
    }
    let an: bool = a >> 63 == 1;
    let bn: bool = b >> 63 == 1;
    if an && bn {
        proof {
            lemma_mag_order(b, a);
        }
        (b & 0x7fff_ffff_ffff_ffff) < (a & 0x7fff_ffff_ffff_ffff)
    } else if an {
        !(a & 0x7fff_ffff_ffff_ffff == 0 && b & 0x7fff_ffff_ffff_ffff == 0)
    } else if bn {
        false
    } else {
        (a & 0x7fff_ffff_ffff_ffff) < (b & 0x7fff_ffff_ffff_ffff)
    }
}

/// Order-or-equality of two NaN-free binary64 values, decided on their
/// bit patterns. With a NaN on either side it does not hold.
pub fn f64_le(a: u64, b: u64) -> (r: bool)
    ensures
        r <==> (!f64_is_nan(a) && !f64_is_nan(b) && (f64_val_lt(a, b) || f64_val_eq(a, b))),
{
    let ea: u64 = (a >> 52) & 0x7ff;
    let eb: u64 = (b >> 52) & 0x7ff;
    if (ea == 0x7ff && a & 0xf_ffff_ffff_ffff != 0) || (eb == 0x7ff && b & 0xf_ffff_ffff_ffff
        != 0) {
        return false;
    }
    proof {
        lemma_mag_order(a, b);
        lemma_mag_order(b, a);
        lemma_mag_zero(a);
        lemma_mag_zero(b);
    }
    let an: bool = a >> 63 == 1;
    let bn: bool = b >> 63 == 1;
    if an && bn {
        (b & 0x7fff_ffff_ffff_ffff) <= (a & 0x7fff_ffff_ffff_ffff)
    } else if an {
        true
    } else if bn {
        a & 0x7fff_ffff_ffff_ffff == 0 && b & 0x7fff_ffff_ffff_ffff == 0
    } else {
        (a & 0x7fff_ffff_ffff_ffff) <= (b & 0x7fff_ffff_ffff_ffff)
    }
}

} // verus!
