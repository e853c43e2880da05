//! Numbers of the IEEE 754 binary64 format, read from their 64-bit patterns.
//!
//! A coordinate reaches this library as two such patterns. Everything here is
//! integer arithmetic on them: which number a pattern denotes, and how two
//! patterns compare as numbers.
//!
//! A pattern is a sign bit, 11 exponent bits `e` and 52 fraction bits `f`.
//! With `e` from 1 to 2046 it denotes the normal number
//! `(1 + f / 2^52) * 2^(e - 1023)`, with `e = 0` the subnormal number
//! `f * 2^-1074`, either with the sign that the sign bit gives. With
//! `e = 2047` it is an infinity where `f = 0`, and a NaN otherwise.
//!
//! Every finite number is thus a whole multiple of 2^-1074. The model measures
//! numbers in that unit, and so stays within the integers.

use vstd::arithmetic::power2::{
    lemma_pow2_pos, lemma_pow2_strictly_increases, lemma_pow2_unfold, pow2,
};
use vstd::prelude::*;

verus! {

/// The bit that holds the sign.
pub const SIGN_BIT: u64 = 0x8000_0000_0000_0000;

/// 2^52: the weight of the lowest exponent bit, and of the leading
/// significand bit that a normal number does not store.
pub const HIDDEN_BIT: u64 = 0x0010_0000_0000_0000;

/// The pattern of positive infinity. With the sign bit cleared, the patterns
/// below it are the finite numbers and those above it are NaNs.
pub const INFINITY: u64 = 0x7ff0_0000_0000_0000;

/// Whether the sign bit is set. It may be set on a zero and on a NaN.
pub open spec fn is_negative(bits: u64) -> bool {
    bits >= SIGN_BIT
}

/// The pattern with its sign bit cleared.
pub open spec fn magnitude_bits(bits: u64) -> u64 {
    if bits >= SIGN_BIT {
        (bits - SIGN_BIT) as u64
    } else {
        bits
    }
}

/// The 11 exponent bits.
pub open spec fn exponent_field(bits: u64) -> nat {
    (magnitude_bits(bits) / HIDDEN_BIT) as nat
}

/// The 52 stored significand bits.
pub open spec fn fraction_field(bits: u64) -> nat {
    (magnitude_bits(bits) % HIDDEN_BIT) as nat
}

/// Zero, subnormal or normal: neither an infinity nor a NaN.
pub open spec fn is_finite(bits: u64) -> bool {
    magnitude_bits(bits) < INFINITY
}

/// Positive or negative infinity.
pub open spec fn is_infinite(bits: u64) -> bool {
    magnitude_bits(bits) == INFINITY
}

/// Not a number.
pub open spec fn is_nan(bits: u64) -> bool {
    magnitude_bits(bits) > INFINITY
}

/// The absolute value of a finite number, in units of 2^-1074.
///
/// A subnormal number is `f` units. A normal number is
/// `(2^52 + f) * 2^(e - 1075)`, which is `(2^52 + f) * 2^(e - 1)` units. On an
/// infinity the same formula gives 2^2098, which is above every finite number,
/// so that `magnitude` orders all patterns that are not NaNs.
pub open spec fn magnitude(bits: u64) -> nat {
    let e = exponent_field(bits);
    let f = fraction_field(bits);
    if e == 0 {
        f
    } else {
        ((HIDDEN_BIT + f) * pow2((e - 1) as nat)) as nat
    }
}

/// The number that a pattern denotes, in units of 2^-1074. Both zeros are 0;
/// an infinity stands at 2^2098 or its negative, beyond every finite number.
/// A NaN denotes no number, and nothing is stated of it.
pub open spec fn scaled_value(bits: u64) -> int {
    if is_negative(bits) {
        -(magnitude(bits) as int)
    } else {
        magnitude(bits) as int
    }
}

/// The whole number `n`, in units of 2^-1074.
pub open spec fn scaled_integer(n: int) -> int {
    n * pow2(1074)
}

/// Whether the pattern denotes a number `x` with `low <= x <= high`. A NaN
/// and the infinities denote none.
pub open spec fn denotes_within(bits: u64, low: int, high: int) -> bool {
    is_finite(bits) && scaled_integer(low) <= scaled_value(bits) <= scaled_integer(high)
}

/// Among patterns with a clear sign bit, a larger pattern has a larger
/// magnitude.
pub proof fn lemma_magnitude_increases(a: u64, b: u64)
    requires
        a < b < SIGN_BIT,
    ensures
        magnitude(a) < magnitude(b),
{
    let ea = exponent_field(a);
    let eb = exponent_field(b);
    let fa = fraction_field(a);
    let fb = fraction_field(b);
    let h = HIDDEN_BIT as int;
    assert(ea <= eb) by (nonlinear_arith)
        requires
            a < b,
            a == ea * h + fa,
            b == eb * h + fb,
            0 <= fa < h,
            0 <= fb < h,
    ;
    if ea == eb {
        // The same exponent: the fractions decide.
        if ea > 0 {
            let p = pow2((ea - 1) as nat) as int;
            lemma_pow2_pos((ea - 1) as nat);
            assert((h + fa) * p < (h + fb) * p) by (nonlinear_arith)
                requires
                    fa < fb,
                    p > 0,
            ;
        }
    } else {
        // A smaller exponent: `a` is below 2^52 * 2^(ea), which `b` is not.
        let q = pow2((eb - 1) as nat) as int;
        lemma_pow2_pos((eb - 1) as nat);
        assert(h * 1 <= h * q <= (h + fb) * q) by (nonlinear_arith)
            requires
                q >= 1,
                fb >= 0,
                h > 0,
        ;
        if ea > 0 {
            let p = pow2((ea - 1) as nat) as int;
            lemma_pow2_pos((ea - 1) as nat);
            lemma_pow2_unfold(ea);
            assert(pow2(ea) <= q) by {
                if ea < eb - 1 {
                    lemma_pow2_strictly_increases(ea, (eb - 1) as nat);
                }
            }
            assert((h + fa) * p < h * (2 * p) && h * (2 * p) <= h * q) by (nonlinear_arith)
                requires
                    fa < h,
                    p > 0,
                    2 * p <= q,
                    h > 0,
            ;
        }
    }
}

/// A pattern with a clear sign bit has magnitude 0 only if it is the pattern
/// of zero.
pub proof fn lemma_magnitude_zero(a: u64)
    requires
        a < SIGN_BIT,
    ensures
        magnitude(a) == 0 <==> a == 0,
{
    if a > 0 {
        lemma_magnitude_increases(0, a);
    }
}

/// Among patterns with a clear sign bit, the order of the patterns is the
/// order of the magnitudes.
pub proof fn lemma_magnitude_order(a: u64, b: u64)
    requires
        a < SIGN_BIT,
        b < SIGN_BIT,
    ensures
        a <= b <==> magnitude(a) <= magnitude(b),
{
    if a < b {
        lemma_magnitude_increases(a, b);
    } else if b < a {
        lemma_magnitude_increases(b, a);
    }
}

/// Every finite number is smaller in magnitude than the stand-in of an
/// infinity.
pub proof fn lemma_finite_below_infinite(x: u64, y: u64)
    requires
        is_finite(x),
        is_infinite(y),
    ensures
        magnitude(x) < magnitude(y),
{
    lemma_magnitude_increases(magnitude_bits(x), magnitude_bits(y));
}

/// `a <= b` as IEEE 754 orders binary64 numbers: false where either is a NaN,
/// and otherwise the order of the numbers denoted. Positive and negative zero
/// are equal, and each infinity is beyond every finite number.
pub open spec fn at_most(a: u64, b: u64) -> bool {
    !is_nan(a) && !is_nan(b) && scaled_value(a) <= scaled_value(b)
}

/// The comparison `a <= b` of two binary64 numbers, computed on their
/// patterns.
pub fn le(a: u64, b: u64) -> (r: bool)
    ensures
        r == at_most(a, b),
{
    let ma: u64 = a & 0x7fff_ffff_ffff_ffff;
    let mb: u64 = b & 0x7fff_ffff_ffff_ffff;
    proof {
        assert(ma == magnitude_bits(a)) by (bit_vector)
            requires
                ma == a & 0x7fff_ffff_ffff_ffff,
        ;
        assert(mb == magnitude_bits(b)) by (bit_vector)
            requires
                mb == b & 0x7fff_ffff_ffff_ffff,
        ;
        lemma_magnitude_order(ma, mb);
        lemma_magnitude_order(mb, ma);
        lemma_magnitude_zero(ma);
        lemma_magnitude_zero(mb);
    }
    if ma > INFINITY || mb > INFINITY {
        // One of them is a NaN.
        false
    } else if a >= SIGN_BIT && b >= SIGN_BIT {
        mb <= ma
    } else if a >= SIGN_BIT {
        true
    } else if b >= SIGN_BIT {
        // Nothing that is not negative is below a negative number: only the
        // two zeros are equal.
        ma == 0 && mb == 0
    } else {
        ma <= mb
    }
}

} // verus!
