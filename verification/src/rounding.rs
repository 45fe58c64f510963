//! Integer rounding helpers shared by every coordinate spec: a
//! round-to-nearest division and its basic algebraic facts.
use vstd::prelude::*;

verus! {

use vstd::arithmetic::div_mod::{
    lemma_basic_div, lemma_div_is_ordered, lemma_div_multiples_vanish,
    lemma_div_multiples_vanish_fancy, lemma_div_pos_is_pos, lemma_multiply_divide_lt,
};
use vstd::arithmetic::mul::lemma_mul_inequality;

/// Round-to-nearest division of `a` by a positive divisor `b`;
/// ties round toward positive infinity.
pub open spec fn round_div(a: int, b: int) -> int
    recommends
        b > 0,
{
    (2 * a + b) / (2 * b)
}

/// The quotient of a floor division by a positive divisor lies between
/// the dividend and zero.
pub proof fn lemma_floor_div_bounds(a: int, b: int)
    requires
        0 < b,
    ensures
        a >= 0 ==> 0 <= a / b <= a,
        a < 0 ==> a <= a / b <= 0,
{
    if a >= 0 {
        lemma_div_pos_is_pos(a, b);
        lemma_mul_inequality(1, b, a);
        assert(a <= b * a) by {
            assert(1 * a == a) by (nonlinear_arith);
            assert(a * b == b * a) by (nonlinear_arith);
        }
        lemma_div_is_ordered(a, b * a, b);
        lemma_div_multiples_vanish(a, b);
    } else {
        lemma_mul_inequality(1, b, -a);
        assert(b * a <= a) by {
            assert(1 * (-a) == -a) by (nonlinear_arith);
            assert((-a) * b == -(b * a)) by (nonlinear_arith);
        }
        lemma_div_is_ordered(b * a, a, b);
        lemma_div_multiples_vanish(a, b);
        lemma_div_is_ordered(a, 0, b);
        lemma_basic_div(0, b);
    }
}

/// Floor division on machine integers, the exact counterpart of `/` on `int`.
pub fn floor_div_i128(a: i128, b: i128) -> (r: i128)
    requires
        0 < b,
    ensures
        r == (a as int) / (b as int),
        a >= 0 ==> 0 <= r <= a,
        a < 0 ==> a <= r <= 0,
{
    proof {
        lemma_floor_div_bounds(a as int, b as int);
    }
    match a.checked_div_euclid(b) {
        Some(q) => q,
        None => {
            proof {
                assert(false);
            }
            0
        },
    }
}

/// Round-to-nearest division on machine integers.
pub fn round_div_i128(a: i128, b: i128) -> (r: i128)
    requires
        0 < b < 0x1000_0000_0000_0000_0000_0000_0000,
        -0x1000_0000_0000_0000_0000_0000_0000 < a < 0x1000_0000_0000_0000_0000_0000_0000,
    ensures
        r == round_div(a as int, b as int),
        a >= 0 ==> 0 <= r <= a,
        a < 0 ==> a <= r <= 0,
{
    proof {
        lemma_round_div_bounds(a as int, b as int);
    }
    floor_div_i128(2 * a + b, 2 * b)
}

/// A rounded quotient lies between the numerator of the underlying
/// ratio and zero.
pub proof fn lemma_round_div_bounds(a: int, b: int)
    requires
        0 < b,
    ensures
        a >= 0 ==> 0 <= round_div(a, b) <= a,
        a < 0 ==> a <= round_div(a, b) <= 0,
{
    if a >= 0 {
        lemma_div_pos_is_pos(2 * a + b, 2 * b);
        assert(2 * a + b < (2 * b) * (a + 1)) by (nonlinear_arith)
            requires
                a >= 0 && b > 0,
        ;
        lemma_multiply_divide_lt(2 * a + b, 2 * b, a + 1);
    } else {
        lemma_div_is_ordered(2 * a + b, b, 2 * b);
        lemma_basic_div(b, 2 * b);
        assert((2 * b) * a <= 2 * a + b) by (nonlinear_arith)
            requires
                a < 0 && b > 0,
        ;
        lemma_div_is_ordered((2 * b) * a, 2 * a + b, 2 * b);
        lemma_div_multiples_vanish(a, 2 * b);
    }
}

/// Rounded division is monotone in its numerator.
pub proof fn lemma_round_div_mono(a1: int, a2: int, b: int)
    requires
        a1 <= a2,
        0 < b,
    ensures
        round_div(a1, b) <= round_div(a2, b),
{
    lemma_div_is_ordered(2 * a1 + b, 2 * a2 + b, 2 * b);
}

/// Rounded division of an exact multiple recovers the factor.
pub proof fn lemma_round_div_exact(k: int, b: int)
    requires
        0 < b,
    ensures
        round_div(k * b, b) == k,
{
    assert(2 * (k * b) + b == (2 * b) * k + b) by (nonlinear_arith);
    lemma_div_multiples_vanish_fancy(k, b, 2 * b);
}

} // verus!
