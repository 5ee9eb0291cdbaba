//! Order on IEEE-754 binary64 bit patterns.
//!
//! A pattern is a sign bit, an eleven-bit biased exponent and a fifty-two-bit
//! fraction. The numeric value of a pattern that is no NaN is modelled by
//! [`scaled`], the value multiplied by two to the power 1074, which is an
//! integer for every finite pattern. Comparisons are stated over that integer
//! and computed from the patterns alone.

use vstd::prelude::*;
use vstd::arithmetic::power2::{
    pow2, lemma2_to64, lemma2_to64_rest, lemma_pow2_adds, lemma_pow2_pos, lemma_pow2_strictly_increases,
    lemma_pow2_unfold,
};

verus! {

/// The sign bit of a pattern.
pub const SIGN_BIT: u64 = 0x8000_0000_0000_0000;

/// The pattern of positive infinity. A larger magnitude is a NaN.
pub const INFINITY: u64 = 0x7ff0_0000_0000_0000;

/// Two to the power 52: the weight of a normal number's implicit leading bit,
/// and the number of fraction patterns per exponent.
pub const HIDDEN_BIT: u64 = 0x0010_0000_0000_0000;

/// Whether the sign bit is set (true of negative zero and of some NaNs too).
pub open spec fn is_negative(bits: u64) -> bool {
    bits >= SIGN_BIT
}

/// The pattern without its sign bit.
pub open spec fn magnitude(bits: u64) -> nat {
    if bits >= SIGN_BIT {
        (bits - SIGN_BIT) as nat
    } else {
        bits as nat
    }
}

/// Whether the pattern is a NaN: all exponent bits set and a fraction that is not zero.
pub open spec fn is_nan(bits: u64) -> bool {
    magnitude(bits) > INFINITY
}

/// The absolute value that a magnitude stands for, multiplied by two to the
/// power 1074. With a zero exponent field the fraction counts alone
/// (zero and the subnormal numbers); otherwise the implicit leading bit is
/// added and the whole is doubled once for each exponent step above one.
/// Infinity is given the value that the next exponent would have, which lies
/// above every finite value.
pub open spec fn weight(magnitude: nat) -> nat {
    let exponent = magnitude / (HIDDEN_BIT as nat);
    let fraction = magnitude % (HIDDEN_BIT as nat);
    if exponent == 0 {
        fraction
    } else {
        (HIDDEN_BIT as nat + fraction) * pow2((exponent - 1) as nat)
    }
}

/// The value of a pattern that is no NaN, multiplied by two to the power 1074.
/// Both zeros have the value zero.
pub open spec fn scaled(bits: u64) -> int {
    if is_negative(bits) {
        -(weight(magnitude(bits)) as int)
    } else {
        weight(magnitude(bits)) as int
    }
}

/// `a > b` as IEEE-754 defines it: false if either is a NaN, and otherwise the
/// strict order of the values. The two zeros are equal.
pub open spec fn greater(a: u64, b: u64) -> bool {
    !is_nan(a) && !is_nan(b) && scaled(a) > scaled(b)
}

/// The lesser of two values, as `f64::min` gives it: a NaN is passed over in
/// favour of the other argument, and of two equal values the first is kept.
pub open spec fn lesser(a: u64, b: u64) -> u64 {
    if is_nan(a) {
        b
    } else if is_nan(b) {
        a
    } else if greater(a, b) {
        b
    } else {
        a
    }
}

/// The larger of two values, as `f64::max` gives it: a NaN is passed over in
/// favour of the other argument, and of two equal values the first is kept.
pub open spec fn larger(a: u64, b: u64) -> u64 {
    if is_nan(a) {
        b
    } else if is_nan(b) {
        a
    } else if greater(b, a) {
        b
    } else {
        a
    }
}

/// A larger magnitude stands for a larger absolute value.
pub proof fn lemma_weight_increases(lower: nat, upper: nat)
    requires
        lower < upper,
    ensures
        weight(lower) < weight(upper),
{
    let hidden: nat = HIDDEN_BIT as nat;
    let lower_exponent: nat = lower / hidden;
    let lower_fraction: nat = lower % hidden;
    let upper_exponent: nat = upper / hidden;
    let upper_fraction: nat = upper % hidden;
    assert(lower_exponent <= upper_exponent);
    assert(upper_exponent >= 1 ==> weight(upper) >= hidden * pow2((upper_exponent - 1) as nat)) by {
        if upper_exponent >= 1 {
            let upper_power: nat = pow2((upper_exponent - 1) as nat);
            assert((hidden + upper_fraction) * upper_power >= hidden * upper_power) by (nonlinear_arith);
        }
    }
    if lower_exponent == upper_exponent {
        assert(lower_fraction < upper_fraction);
        if lower_exponent > 0 {
            let power: nat = pow2((lower_exponent - 1) as nat);
            lemma_pow2_pos((lower_exponent - 1) as nat);
            assert((hidden + lower_fraction) * power < (hidden + upper_fraction) * power) by (nonlinear_arith)
                requires
                    lower_fraction < upper_fraction,
                    power > 0,
            ;
        }
    } else {
        let upper_power: nat = pow2((upper_exponent - 1) as nat);
        lemma_pow2_pos((upper_exponent - 1) as nat);
        if lower_exponent == 0 {
            assert(hidden * upper_power >= hidden) by (nonlinear_arith)
                requires
                    upper_power >= 1,
            ;
        } else {
            let lower_power: nat = pow2((lower_exponent - 1) as nat);
            lemma_pow2_pos((lower_exponent - 1) as nat);
            lemma_pow2_unfold(lower_exponent);
            if lower_exponent < upper_exponent - 1 {
                lemma_pow2_strictly_increases(lower_exponent, (upper_exponent - 1) as nat);
            }
            assert(2 * lower_power <= upper_power);
            assert((hidden + lower_fraction) * lower_power < hidden * upper_power) by (nonlinear_arith)
                requires
                    lower_fraction < hidden,
                    lower_power > 0,
                    2 * lower_power <= upper_power,
            ;
        }
    }
}

/// Only the zero magnitude stands for zero.
pub proof fn lemma_weight_zero(magnitude: nat)
    ensures
        weight(magnitude) == 0 <==> magnitude == 0,
{
    if magnitude > 0 {
        lemma_weight_increases(0, magnitude);
    }
}

/// Whether `a > b`, computed from the two patterns.
pub fn exceeds(a: u64, b: u64) -> (r: bool)
    ensures
        r == greater(a, b),
{
    let a_negative: bool = a >= SIGN_BIT;
    let b_negative: bool = b >= SIGN_BIT;
    let a_magnitude: u64 = if a_negative { a - SIGN_BIT } else { a };
    let b_magnitude: u64 = if b_negative { b - SIGN_BIT } else { b };
    if a_magnitude > INFINITY || b_magnitude > INFINITY {
        return false;
    }
    proof {
        lemma_weight_zero(a_magnitude as nat);
        lemma_weight_zero(b_magnitude as nat);
        if a_magnitude < b_magnitude {
            lemma_weight_increases(a_magnitude as nat, b_magnitude as nat);
        }
        if b_magnitude < a_magnitude {
            lemma_weight_increases(b_magnitude as nat, a_magnitude as nat);
        }
    }
    if a_negative {
        b_negative && a_magnitude < b_magnitude
    } else if b_negative {
        a_magnitude > 0 || b_magnitude > 0
    } else {
        a_magnitude > b_magnitude
    }
}

/// Whether the pattern is a NaN.
pub fn is_nan_pattern(bits: u64) -> (r: bool)
    ensures
        r == is_nan(bits),
{
    let magnitude: u64 = if bits >= SIGN_BIT { bits - SIGN_BIT } else { bits };
    magnitude > INFINITY
}

/// The lesser of two values; see [`lesser`].
pub fn minimum(a: u64, b: u64) -> (r: u64)
    ensures
        r == lesser(a, b),
{
    if is_nan_pattern(a) {
        b
    } else if is_nan_pattern(b) {
        a
    } else if exceeds(a, b) {
        b
    } else {
        a
    }
}

/// The larger of two values; see [`larger`].
pub fn maximum(a: u64, b: u64) -> (r: u64)
    ensures
        r == larger(a, b),
{
    if is_nan_pattern(a) {
        b
    } else if is_nan_pattern(b) {
        a
    } else if exceeds(b, a) {
        b
    } else {
        a
    }
}

/// The scale of the model: the least pattern above zero, the smallest subnormal
/// number, has the value one, and the pattern of the number one has the value
/// two to the power 1074.
pub proof fn lemma_scale()
    ensures
        scaled(0) == 0,
        scaled(SIGN_BIT) == 0,
        scaled(1) == 1,
        scaled(0x3ff0_0000_0000_0000) == pow2(1074),
{
    lemma2_to64();
    lemma2_to64_rest();
    lemma_pow2_adds(52, 1022);
    assert(0x3ff0_0000_0000_0000nat / (HIDDEN_BIT as nat) == 1023);
    assert(0x3ff0_0000_0000_0000nat % (HIDDEN_BIT as nat) == 0);
}

/// `greater` is a strict order: nothing exceeds itself, no two values exceed
/// each other, and what exceeds a value exceeds all that the value exceeds.
pub proof fn lemma_greater_is_strict(a: u64, b: u64, c: u64)
    ensures
        !greater(a, a),
        greater(a, b) ==> !greater(b, a),
        greater(a, b) && greater(b, c) ==> greater(a, c),
{
}

/// A NaN neither exceeds anything nor is exceeded.
pub proof fn lemma_nan_is_unordered(a: u64, b: u64)
    requires
        is_nan(a) || is_nan(b),
    ensures
        !greater(a, b),
        !greater(b, a),
{
}

/// The two zeros are equal, and every other value that is no NaN lies strictly
/// on the side of zero that its sign bit names.
pub proof fn lemma_sign_of_value(bits: u64)
    requires
        !is_nan(bits),
    ensures
        magnitude(bits) == 0 ==> scaled(bits) == 0,
        magnitude(bits) != 0 && !is_negative(bits) ==> scaled(bits) > 0,
        magnitude(bits) != 0 && is_negative(bits) ==> scaled(bits) < 0,
{
    lemma_weight_zero(magnitude(bits));
}

/// Among the values of one sign, the order of the values is the order of the
/// magnitudes, reversed below zero.
pub proof fn lemma_order_within_sign(a: u64, b: u64)
    requires
        !is_nan(a),
        !is_nan(b),
        is_negative(a) == is_negative(b),
    ensures
        greater(a, b) <==> if is_negative(a) {
            magnitude(a) < magnitude(b)
        } else {
            magnitude(a) > magnitude(b)
        },
{
    if magnitude(a) < magnitude(b) {
        lemma_weight_increases(magnitude(a), magnitude(b));
    }
    if magnitude(b) < magnitude(a) {
        lemma_weight_increases(magnitude(b), magnitude(a));
    }
}

/// The lesser of two values is one of them and exceeds neither; the larger is
/// one of them and is exceeded by neither.
pub proof fn lemma_lesser_and_larger(a: u64, b: u64)
    ensures
        lesser(a, b) == a || lesser(a, b) == b,
        larger(a, b) == a || larger(a, b) == b,
        !greater(lesser(a, b), a),
        !greater(lesser(a, b), b),
        !greater(a, larger(a, b)),
        !greater(b, larger(a, b)),
        is_nan(lesser(a, b)) <==> is_nan(a) && is_nan(b),
        is_nan(larger(a, b)) <==> is_nan(a) && is_nan(b),
{
}

} // verus!
