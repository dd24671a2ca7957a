//! IEEE-754 binary64 numbers by their bit patterns: sign, magnitude order
//! and truncation to an integer, all in integer arithmetic.

use vstd::arithmetic::power2::{
    lemma2_to64, lemma_pow2_pos, lemma_pow2_strictly_increases, pow2,
};
use vstd::bits::{lemma_u64_shl_is_mul, lemma_u64_shr_is_div};
use vstd::prelude::*;

verus! {

/// Two to the power 52: one more than the largest fraction field.
pub const FRACTION_RANGE: u64 = 0x0010_0000_0000_0000;

/// Two to the power 63: the weight of the sign bit.
pub const SIGN_WEIGHT: u64 = 0x8000_0000_0000_0000;

/// The bit pattern of positive infinity, above which magnitudes are no
/// numbers.
pub const INFINITY: u64 = 0x7FF0_0000_0000_0000;

/// The biased exponent of the number one.
pub const EXPONENT_BIAS: u64 = 1023;

/// The pattern without its sign bit. For two numbers, the one with the
/// smaller pattern here has the smaller absolute value.
pub open spec fn magnitude(bits: u64) -> nat {
    (bits % SIGN_WEIGHT) as nat
}

/// Whether the sign bit is set.
pub open spec fn sign_set(bits: u64) -> bool {
    bits >= SIGN_WEIGHT
}

/// Whether the pattern is no number: all exponent bits set, and a fraction
/// that is not zero.
pub open spec fn is_nan(bits: u64) -> bool {
    magnitude(bits) > INFINITY
}

/// The biased exponent field.
pub open spec fn exponent(bits: u64) -> nat {
    ((bits / FRACTION_RANGE) % 2048) as nat
}

/// The fraction field.
pub open spec fn fraction(bits: u64) -> nat {
    (bits % FRACTION_RANGE) as nat
}

/// `x > 0` for the number `x` with this pattern; false for what is no
/// number.
pub open spec fn is_positive(bits: u64) -> bool {
    !sign_set(bits) && 0 < magnitude(bits) <= INFINITY
}

/// `|a| < |b|` for the numbers with these patterns; false where one of
/// them is no number.
pub open spec fn abs_less(a: u64, b: u64) -> bool {
    !is_nan(a) && !is_nan(b) && magnitude(a) < magnitude(b)
}

/// The number with this pattern cut to a 64-bit unsigned integer: its
/// whole part where that fits, zero for what is negative, below one or no
/// number, and the largest integer for what is too large.
pub open spec fn truncated(bits: u64) -> int {
    let e = exponent(bits);
    let significand = FRACTION_RANGE + fraction(bits);
    if is_nan(bits) || sign_set(bits) || e < EXPONENT_BIAS {
        0
    } else if e >= EXPONENT_BIAS + 64 {
        u64::MAX as int
    } else if e >= EXPONENT_BIAS + 52 {
        significand * pow2((e - EXPONENT_BIAS - 52) as nat)
    } else {
        significand / (pow2((EXPONENT_BIAS + 52 - e) as nat) as int)
    }
}

/// What `truncated` gives fits a 64-bit unsigned integer.
pub proof fn lemma_truncated_fits(bits: u64)
    ensures
        0 <= truncated(bits) <= u64::MAX,
{
    let e = exponent(bits);
    let significand = FRACTION_RANGE + fraction(bits);
    if is_nan(bits) || sign_set(bits) || e < EXPONENT_BIAS {
    } else if e >= EXPONENT_BIAS + 64 {
    } else if e >= EXPONENT_BIAS + 52 {
        let shift = (e - EXPONENT_BIAS - 52) as nat;
        lemma2_to64();
        if shift < 11 {
            lemma_pow2_strictly_increases(shift, 11);
        }
        lemma_pow2_pos(shift);
        assert(0 <= significand * pow2(shift) <= u64::MAX) by (nonlinear_arith)
            requires
                0 <= significand < 0x0020_0000_0000_0000,
                0 < pow2(shift) <= 2048,
        ;
    } else {
        let shift = (EXPONENT_BIAS + 52 - e) as nat;
        lemma_pow2_pos(shift);
        assert(0 <= significand / (pow2(shift) as int) <= significand) by (nonlinear_arith)
            requires
                0 <= significand,
                0 < pow2(shift),
        ;
    }
}

/// Whether the number with this pattern is above zero.
pub fn positive(bits: u64) -> (yes: bool)
    ensures
        yes == is_positive(bits),
{
    bits < SIGN_WEIGHT && 0 < bits && bits <= INFINITY
}

/// Whether the number `a` is smaller than the number `b` in absolute
/// value.
pub fn abs_lt(a: u64, b: u64) -> (yes: bool)
    ensures
        yes == abs_less(a, b),
{
    let ma: u64 = a % SIGN_WEIGHT;
    let mb: u64 = b % SIGN_WEIGHT;
    ma <= INFINITY && mb <= INFINITY && ma < mb
}

/// Cuts the number with this pattern to a 64-bit unsigned integer.
pub fn to_u64(bits: u64) -> (whole: u64)
    ensures
        whole == truncated(bits),
{
    let m: u64 = bits % SIGN_WEIGHT;
    let e: u64 = (bits / FRACTION_RANGE) % 2048;
    if m > INFINITY || bits >= SIGN_WEIGHT || e < EXPONENT_BIAS {
        return 0;
    }
    if e >= EXPONENT_BIAS + 64 {
        return u64::MAX;
    }
    let significand: u64 = FRACTION_RANGE + bits % FRACTION_RANGE;
    if e >= EXPONENT_BIAS + 52 {
        let shift: u64 = e - (EXPONENT_BIAS + 52);
        proof {
            lemma2_to64();
            if shift < 11 {
                lemma_pow2_strictly_increases(shift as nat, 11);
            }
            lemma_pow2_pos(shift as nat);
            assert(significand * pow2(shift as nat) <= u64::MAX) by (nonlinear_arith)
                requires
                    significand < 0x0020_0000_0000_0000,
                    0 < pow2(shift as nat) <= 2048,
            ;
            lemma_u64_shl_is_mul(significand, shift);
        }
        significand << shift
    } else {
        let shift: u64 = EXPONENT_BIAS + 52 - e;
        proof {
            lemma_u64_shr_is_div(significand, shift);
            lemma_pow2_pos(shift as nat);
        }
        significand >> shift
    }
}

} // verus!
