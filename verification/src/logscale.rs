//! The logarithmic coordinate spec and its fixed-point logarithm.
//!
//! Pixel mapping cannot use floating point here, so the decimal
//! logarithm is represented in fixed point: one decade is `1000000`
//! units.  `log_fix` is exact (to the unit) at every single-digit
//! multiple of a power of ten and interpolates linearly between those
//! anchors; it is monotone over its whole domain, which is what the
//! mapping invariants need.
use vstd::prelude::*;

verus! {

use crate::coord::{CoordError, COORD_LIMIT, PIXEL_LIMIT};
use crate::rounding::{
    lemma_round_div_exact, lemma_round_div_mono, round_div, round_div_i128,
};
use vstd::arithmetic::div_mod::{
    lemma_div_is_ordered, lemma_div_multiples_vanish, lemma_div_pos_is_pos,
    lemma_fundamental_div_mod, lemma_mod_division_less_than_divisor, lemma_multiply_divide_lt,
};
use vstd::arithmetic::mul::{lemma_mul_inequality, lemma_mul_strict_inequality};

/// Fixed-point scale of the decimal logarithm: one decade.
pub const LOG_SCALE: u64 = 1000000;

/// Ten to the `e`-th power.
pub open spec fn pow10(e: nat) -> int
    decreases e,
{
    if e == 0 {
        1
    } else {
        10 * pow10((e - 1) as nat)
    }
}

/// The decimal exponent of `v`: the largest `e` with `pow10(e) <= v`.
pub open spec fn dec_exp(v: int) -> nat
    recommends
        v >= 1,
    decreases v,
{
    if v < 10 {
        0
    } else {
        1 + dec_exp(v / 10)
    }
}

/// `1000000 * log10(d)` rounded to nearest, for the anchor digits
/// `1..=10`.
pub open spec fn digit_anchor(d: int) -> int {
    if d <= 1 {
        0
    } else if d == 2 {
        301030
    } else if d == 3 {
        477121
    } else if d == 4 {
        602060
    } else if d == 5 {
        698970
    } else if d == 6 {
        778151
    } else if d == 7 {
        845098
    } else if d == 8 {
        903090
    } else if d == 9 {
        954243
    } else {
        1000000
    }
}

/// The fixed-point decimal logarithm of `v >= 1`: exact at each anchor
/// `d * 10^e` with `d` in `1..=9`, linearly interpolated in between.
pub open spec fn log_fix(v: int) -> int
    recommends
        v >= 1,
{
    let e = dec_exp(v);
    let p = pow10(e);
    let d = v / p;
    e * (LOG_SCALE as int) + digit_anchor(d) + (v - d * p) * (digit_anchor(d + 1)
        - digit_anchor(d)) / p
}

/// Powers of ten are positive.
pub proof fn lemma_pow10_pos(e: nat)
    ensures
        pow10(e) >= 1,
    decreases e,
{
    if e > 0 {
        lemma_pow10_pos((e - 1) as nat);
    }
}

/// Powers of ten grow with the exponent.
pub proof fn lemma_pow10_mono(a: nat, b: nat)
    requires
        a <= b,
    ensures
        pow10(a) <= pow10(b),
    decreases b,
{
    if a < b {
        lemma_pow10_mono(a, (b - 1) as nat);
        lemma_pow10_pos((b - 1) as nat);
    }
}

/// The decimal exponent is the unique `e` with
/// `pow10(e) <= v < pow10(e + 1)`.
pub proof fn lemma_dec_exp_char(v: int, e: nat)
    requires
        v >= 1,
        pow10(e) <= v < pow10(e + 1),
    ensures
        dec_exp(v) == e,
    decreases e,
{
    if e == 0 {
        assert(v < 10);
    } else {
        lemma_pow10_mono(1, e);
        assert(pow10(1) == 10) by {
            reveal_with_fuel(pow10, 2);
        }
        assert(v >= 10);
        lemma_pow10_pos((e - 1) as nat);
        lemma_div_is_ordered(pow10(e), v, 10);
        lemma_div_multiples_vanish(pow10((e - 1) as nat), 10);
        assert(pow10(e) / 10 == pow10((e - 1) as nat));
        assert(pow10(e + 1) == 10 * pow10(e));
        lemma_multiply_divide_lt(v, 10, pow10(e));
        assert(v / 10 < pow10(e));
        lemma_dec_exp_char(v / 10, (e - 1) as nat);
    }
}

/// The decimal exponent brackets its argument between two neighbouring
/// powers of ten.
pub proof fn lemma_dec_exp_bounds(v: int)
    requires
        v >= 1,
    ensures
        pow10(dec_exp(v)) <= v < pow10(dec_exp(v) + 1),
    decreases v,
{
    if v < 10 {
        assert(pow10(0) == 1 && pow10(1) == 10) by {
            reveal_with_fuel(pow10, 2);
        }
    } else {
        lemma_div_pos_is_pos(v, 10);
        lemma_div_is_ordered(10, v, 10);
        assert(10int / 10 == 1) by {
            lemma_div_multiples_vanish(1, 10);
        }
        lemma_dec_exp_bounds(v / 10);
        let e1 = dec_exp(v / 10);
        lemma_fundamental_div_mod(v, 10);
        lemma_mod_division_less_than_divisor(v, 10);
        assert(pow10(e1 + 1) == 10 * pow10(e1));
        lemma_mul_inequality(pow10(e1), v / 10, 10);
        assert(pow10(e1) * 10 == 10 * pow10(e1)) by (nonlinear_arith);
        assert((v / 10) * 10 == 10 * (v / 10)) by (nonlinear_arith);
        assert(pow10(e1 + 1) <= v);
        lemma_mul_inequality(v / 10, pow10(e1 + 1) - 1, 10);
        assert((pow10(e1 + 1) - 1) * 10 == 10 * pow10(e1 + 1) - 10) by (nonlinear_arith);
        assert(v < pow10(e1 + 2));
    }
}

/// The decimal exponent is monotone.
pub proof fn lemma_dec_exp_mono(v1: int, v2: int)
    requires
        1 <= v1 <= v2,
    ensures
        dec_exp(v1) <= dec_exp(v2),
{
    lemma_dec_exp_bounds(v1);
    lemma_dec_exp_bounds(v2);
    if dec_exp(v1) > dec_exp(v2) {
        lemma_pow10_mono(dec_exp(v2) + 1, dec_exp(v1));
        assert(false);
    }
}

/// The anchor table is monotone and bounded by one decade.
pub proof fn lemma_anchor_mono(a: int, b: int)
    requires
        a <= b,
    ensures
        digit_anchor(a) <= digit_anchor(b),
        0 <= digit_anchor(a) <= LOG_SCALE,
{
}

/// `log_fix(v)` lies between the anchors of `v`'s own segment.
pub proof fn lemma_log_fix_bounds(v: int)
    requires
        v >= 1,
    ensures
        dec_exp(v) * (LOG_SCALE as int) + digit_anchor(v / pow10(dec_exp(v))) <= log_fix(v),
        log_fix(v) <= dec_exp(v) * (LOG_SCALE as int) + digit_anchor(v / pow10(dec_exp(v)) + 1),
        1 <= v / pow10(dec_exp(v)) <= 9,
{
    let e = dec_exp(v);
    let p = pow10(e);
    lemma_dec_exp_bounds(v);
    lemma_pow10_pos(e);
    let d = v / p;
    lemma_div_is_ordered(p, v, p);
    lemma_div_multiples_vanish(1, p);
    assert(p * 1 == p) by (nonlinear_arith);
    assert(d >= 1);
    assert(pow10(e + 1) == 10 * pow10(e));
    lemma_multiply_divide_lt(v, p, 10);
    assert(d <= 9);
    lemma_fundamental_div_mod(v, p);
    lemma_mod_division_less_than_divisor(v, p);
    let rem = v - d * p;
    assert(p * d == d * p) by (nonlinear_arith);
    assert(0 <= rem < p);
    let delta = digit_anchor(d + 1) - digit_anchor(d);
    lemma_anchor_mono(d, d + 1);
    assert(delta >= 0);
    lemma_div_pos_is_pos(rem * delta, p);
    assert(rem * delta >= 0) by (nonlinear_arith)
        requires
            rem >= 0 && delta >= 0,
    ;
    if delta == 0 {
        assert(rem * delta == 0) by (nonlinear_arith)
            requires
                delta == 0,
        ;
        lemma_div_pos_is_pos(0, p);
        assert(rem * delta / p <= delta) by {
            lemma_div_is_ordered(0, 0, p);
            assert(0int / p == 0) by {
                lemma_div_multiples_vanish(0, p);
                assert(p * 0 == 0) by (nonlinear_arith);
            }
        }
    } else {
        lemma_mul_strict_inequality(rem, p, delta);
        assert(rem * delta < p * delta);
        lemma_multiply_divide_lt(rem * delta, p, delta);
        assert(rem * delta / p < delta);
    }
}

/// The fixed-point logarithm is monotone.
pub proof fn lemma_log_fix_mono(v1: int, v2: int)
    requires
        1 <= v1 <= v2,
    ensures
        log_fix(v1) <= log_fix(v2),
{
    let s = LOG_SCALE as int;
    let e1 = dec_exp(v1);
    let e2 = dec_exp(v2);
    let p1 = pow10(e1);
    let p2 = pow10(e2);
    let d1 = v1 / p1;
    let d2 = v2 / p2;
    lemma_dec_exp_mono(v1, v2);
    lemma_log_fix_bounds(v1);
    lemma_log_fix_bounds(v2);
    lemma_dec_exp_bounds(v1);
    lemma_dec_exp_bounds(v2);
    lemma_pow10_pos(e1);
    lemma_pow10_pos(e2);
    if e1 == e2 && d1 == d2 {
        let delta = digit_anchor(d1 + 1) - digit_anchor(d1);
        lemma_anchor_mono(d1, d1 + 1);
        lemma_div_is_ordered(v1, v2, p1);
        assert(v1 - d1 * p1 <= v2 - d2 * p2);
        lemma_mul_inequality(v1 - d1 * p1, v2 - d2 * p2, delta);
        lemma_div_is_ordered((v1 - d1 * p1) * delta, (v2 - d2 * p2) * delta, p1);
    } else if e1 == e2 {
        lemma_div_is_ordered(v1, v2, p1);
        assert(d1 < d2);
        lemma_anchor_mono(d1 + 1, d2);
    } else {
        assert(e1 < e2);
        lemma_anchor_mono(d1 + 1, 10);
        lemma_anchor_mono(1, d2);
        assert(e1 * s + s == (e1 + 1) * s) by (nonlinear_arith);
        lemma_mul_inequality(e1 + 1 as int, e2 as int, s);
        assert((e1 + 1) * s == s * (e1 + 1) && e2 * s == s * e2) by (nonlinear_arith);
    }
}

/// The fixed-point logarithm of a power of ten is exactly that many
/// decades.
pub proof fn lemma_log_fix_pow10(k: nat)
    ensures
        log_fix(pow10(k)) == k * (LOG_SCALE as int),
{
    let p = pow10(k);
    lemma_pow10_pos(k);
    assert(pow10(k + 1) == 10 * pow10(k));
    lemma_dec_exp_char(p, k);
    lemma_div_multiples_vanish(1, p);
    assert(p * 1 == p) by (nonlinear_arith);
    assert(p / p == 1);
    assert(p - 1 * p == 0) by (nonlinear_arith);
    assert(0 * (digit_anchor(2) - digit_anchor(1)) == 0) by (nonlinear_arith);
    assert(0int / p == 0) by {
        lemma_div_multiples_vanish(0, p);
        assert(p * 0 == 0) by (nonlinear_arith);
    }
}

/// The fixed-point logarithm of an `i32`-sized value is at most ten
/// decades.
pub proof fn lemma_log_fix_range(v: int)
    requires
        1 <= v <= 0x8000_0000,
    ensures
        0 <= log_fix(v) <= 10 * (LOG_SCALE as int),
{
    lemma_log_fix_bounds(v);
    lemma_dec_exp_bounds(v);
    let e = dec_exp(v);
    assert(e <= 9) by {
        if e >= 10 {
            lemma_pow10_mono(10, e);
            assert(pow10(10) == 10_000_000_000) by {
                reveal_with_fuel(pow10, 11);
            }
        }
    }
    let d = v / pow10(e);
    lemma_anchor_mono(1, d);
    lemma_anchor_mono(d + 1, 10);
    assert(e * (LOG_SCALE as int) >= 0) by (nonlinear_arith)
        requires
            e >= 0,
    ;
    lemma_mul_inequality(e as int, 9, LOG_SCALE as int);
}

/// Table lookup for `digit_anchor`.
fn anchor_at(d: u64) -> (r: u64)
    ensures
        r == digit_anchor(d as int),
{
    if d <= 1 {
        0
    } else if d == 2 {
        301030
    } else if d == 3 {
        477121
    } else if d == 4 {
        602060
    } else if d == 5 {
        698970
    } else if d == 6 {
        778151
    } else if d == 7 {
        845098
    } else if d == 8 {
        903090
    } else if d == 9 {
        954243
    } else {
        1000000
    }
}

/// Computes the fixed-point decimal logarithm of a positive value.
pub fn log_fix_u64(v: u64) -> (r: u64)
    requires
        1 <= v <= 0x8000_0000,
    ensures
        r == log_fix(v as int),
        r <= 10 * LOG_SCALE,
{
    proof {
        lemma_log_fix_range(v as int);
    }
    let mut e: u64 = 0;
    let mut p: u64 = 1;
    while p <= v / 10
        invariant
            1 <= v <= 0x8000_0000,
            p == pow10(e as nat),
            1 <= p <= v,
            e <= 9,
        decreases v - p,
    {
        proof {
            lemma_fundamental_div_mod(v as int, 10);
            lemma_mod_division_less_than_divisor(v as int, 10);
            lemma_mul_inequality(p as int, (v as int) / 10, 10);
            assert((p as int) * 10 == 10 * (p as int)) by (nonlinear_arith);
            assert(((v as int) / 10) * 10 == 10 * ((v as int) / 10)) by (nonlinear_arith);
            assert(10 * (p as int) <= v as int);
            assert(pow10((e + 1) as nat) == 10 * pow10(e as nat));
            if e + 1 >= 10 {
                lemma_pow10_mono(10, (e + 1) as nat);
                assert(pow10(10) == 10_000_000_000) by {
                    reveal_with_fuel(pow10, 11);
                }
            }
        }
        p = p * 10;
        e = e + 1;
    }
    proof {
        lemma_fundamental_div_mod(v as int, 10);
        lemma_mod_division_less_than_divisor(v as int, 10);
        lemma_mul_inequality((v as int) / 10, p as int - 1, 10);
        assert(((v as int) / 10) * 10 == 10 * ((v as int) / 10)) by (nonlinear_arith);
        assert((p as int - 1) * 10 == 10 * (p as int) - 10) by (nonlinear_arith);
        assert((v as int) < 10 * (p as int));
        assert(pow10((e + 1) as nat) == 10 * pow10(e as nat));
        lemma_dec_exp_char(v as int, e as nat);
    }
    let d: u64 = v / p;
    proof {
        lemma_div_is_ordered(p as int, v as int, p as int);
        lemma_div_multiples_vanish(1, p as int);
        assert((p as int) * 1 == p as int) by (nonlinear_arith);
        lemma_multiply_divide_lt(v as int, p as int, 10);
        assert(1 <= d <= 9);
        lemma_fundamental_div_mod(v as int, p as int);
        lemma_mod_division_less_than_divisor(v as int, p as int);
        assert((p as int) * (d as int) == (d as int) * (p as int)) by (nonlinear_arith);
        assert(0 <= (v as int) - (d as int) * (p as int) < p as int);
    }
    let rem: u64 = v - d * p;
    let a0: u64 = anchor_at(d);
    let a1: u64 = anchor_at(d + 1);
    proof {
        lemma_anchor_mono(d as int, d as int + 1);
        lemma_anchor_mono(1, d as int);
        assert(a0 <= a1);
    }
    let delta: u64 = a1 - a0;
    proof {
        assert((rem as int) * (delta as int) <= 0x8000_0000 * 1000000) by (nonlinear_arith)
            requires
                0 <= rem as int <= 0x8000_0000 && 0 <= delta as int <= 1000000,
        ;
        lemma_div_pos_is_pos((rem as int) * (delta as int), p as int);
        assert((rem as int) * (delta as int) >= 0) by (nonlinear_arith)
            requires
                rem as int >= 0 && delta as int >= 0,
        ;
    }
    let interp: u64 = (rem * delta) / p;
    e * LOG_SCALE + a0 + interp
}

/// A logarithmic mapping from the logical range `[min, max]` (with
/// `min >= 1`) onto the pixel range from `lo` to `hi`: the linear pixel
/// formula applied to the fixed-point logarithm of the value.
#[derive(Clone, Copy, PartialEq, Eq, Structural, Debug)]
pub struct LogSpec {
    pub min: i32,
    pub max: i32,
    pub lo: i32,
    pub hi: i32,
}

/// Where a logarithmic spec sends the logical value `v`.
pub open spec fn log_map_at(s: LogSpec, v: int) -> int {
    s.lo + round_div(
        (log_fix(v) - log_fix(s.min as int)) * (s.hi - s.lo),
        log_fix(s.max as int) - log_fix(s.min as int),
    )
}

impl LogSpec {
    /// The spec's internal invariant: a positive, non-empty logical
    /// range that stays non-empty in log space, and bounded pixel
    /// endpoints.
    pub open spec fn wf(&self) -> bool {
        &&& 1 <= self.min < self.max
        &&& -COORD_LIMIT <= self.lo <= COORD_LIMIT
        &&& -COORD_LIMIT <= self.hi <= COORD_LIMIT
        &&& log_fix(self.min as int) < log_fix(self.max as int)
    }

    /// Builds a logarithmic spec.  A `min` below one is refused as
    /// non-positive; an empty range, or one whose endpoints coincide in
    /// fixed-point log space, is refused as empty.
    pub fn new(min: i32, max: i32, lo: i32, hi: i32) -> (r: Result<LogSpec, CoordError>)
        requires
            -COORD_LIMIT <= lo <= COORD_LIMIT,
            -COORD_LIMIT <= hi <= COORD_LIMIT,
        ensures
            min < 1 ==> r == Err::<LogSpec, CoordError>(CoordError::NonPositive),
            min >= 1 && (min >= max || log_fix(min as int) >= log_fix(max as int)) ==> r
                == Err::<LogSpec, CoordError>(CoordError::EmptyRange),
            min >= 1 && min < max && log_fix(min as int) < log_fix(max as int) ==> (r matches
                Ok(s) && s == (LogSpec { min, max, lo, hi }) && s.wf()),
    {
        if min < 1 {
            return Err(CoordError::NonPositive);
        }
        if max <= min {
            return Err(CoordError::EmptyRange);
        }
        let lmin = log_fix_u64(min as u64);
        let lmax = log_fix_u64(max as u64);
        proof {
            lemma_log_fix_mono(min as int, max as int);
        }
        if lmin >= lmax {
            return Err(CoordError::EmptyRange);
        }
        Ok(LogSpec { min, max, lo, hi })
    }

    /// Maps a logical value to a pixel position; values outside
    /// `[min, max]` map outside the pixel range, but a value below one
    /// has no logarithm and is refused at once.
    pub fn map(&self, v: i32) -> (r: Result<i64, CoordError>)
        requires
            self.wf(),
        ensures
            v < 1 ==> r == Err::<i64, CoordError>(CoordError::NonPositive),
            v >= 1 ==> (r matches Ok(p) && p == log_map_at(*self, v as int) && -PIXEL_LIMIT
                <= p <= PIXEL_LIMIT),
    {
        if v < 1 {
            return Err(CoordError::NonPositive);
        }
        let lv = log_fix_u64(v as u64);
        let lmin = log_fix_u64(self.min as u64);
        let lmax = log_fix_u64(self.max as u64);
        let d: i128 = lv as i128 - lmin as i128;
        let span: i128 = (self.hi as i128) - (self.lo as i128);
        let ldom: i128 = lmax as i128 - lmin as i128;
        proof {
            assert(-10000000 <= d <= 10000000 && -0x1_0000_0000 <= span <= 0x1_0000_0000);
            assert(-0x989680_0000_0000 <= d * span <= 0x989680_0000_0000) by (nonlinear_arith)
                requires
                    -10000000 <= d <= 10000000 && -0x1_0000_0000 <= span <= 0x1_0000_0000,
            ;
        }
        let q: i128 = round_div_i128(d * span, ldom);
        let p: i128 = (self.lo as i128) + q;
        Ok(p as i64)
    }
}

/// A logarithmic spec sends the endpoints of its logical range exactly
/// to the endpoints of its pixel range.
pub proof fn lemma_log_endpoints(s: LogSpec)
    requires
        s.wf(),
    ensures
        log_map_at(s, s.min as int) == s.lo,
        log_map_at(s, s.max as int) == s.hi,
{
    let lmin = log_fix(s.min as int);
    let lmax = log_fix(s.max as int);
    let span = s.hi - s.lo;
    let ldom = lmax - lmin;
    assert((lmin - lmin) * (s.hi - s.lo) == 0 * (lmax - lmin)) by (nonlinear_arith);
    lemma_round_div_exact(0, ldom);
    assert((lmax - lmin) * (s.hi - s.lo) == (s.hi - s.lo) * (lmax - lmin)) by (nonlinear_arith);
    lemma_round_div_exact(span, ldom);
}

/// A logarithmic spec is monotone over its domain: increasing when
/// `lo <= hi`, decreasing when `hi <= lo`.
pub proof fn lemma_log_monotone(s: LogSpec, v1: int, v2: int)
    requires
        s.wf(),
        1 <= v1 <= v2,
    ensures
        s.lo <= s.hi ==> log_map_at(s, v1) <= log_map_at(s, v2),
        s.hi <= s.lo ==> log_map_at(s, v2) <= log_map_at(s, v1),
{
    lemma_log_fix_mono(v1, v2);
    let t1 = log_fix(v1);
    let t2 = log_fix(v2);
    let lmin = log_fix(s.min as int);
    let span = s.hi - s.lo;
    let ldom = log_fix(s.max as int) - lmin;
    if span >= 0 {
        lemma_mul_inequality(t1 - lmin, t2 - lmin, span);
        lemma_round_div_mono((t1 - lmin) * span, (t2 - lmin) * span, ldom);
    }
    if span <= 0 {
        lemma_mul_inequality(t1 - lmin, t2 - lmin, -span);
        assert((t1 - lmin) * (-span) == -((t1 - lmin) * span)) by (nonlinear_arith);
        assert((t2 - lmin) * (-span) == -((t2 - lmin) * span)) by (nonlinear_arith);
        lemma_round_div_mono((t2 - lmin) * span, (t1 - lmin) * span, ldom);
    }
}

} // verus!
