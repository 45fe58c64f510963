//! One-dimensional coordinate specs: stateless mappings from a logical
//! value domain onto an integer pixel range.
//!
//! A spec holds its logical range `(min, max)` and its pixel range
//! `(lo, hi)`; the mapping is monotone over the logical range and sends
//! the range endpoints exactly to the pixel endpoints.  Out-of-range
//! values are not clamped: they map outside `[lo, hi]` and the caller
//! decides whether to clip.
use vstd::prelude::*;

verus! {

use crate::bytes::bytes_eq;
use crate::rounding::{
    lemma_round_div_exact, lemma_round_div_mono, round_div, round_div_i128,
};
use vstd::arithmetic::mul::lemma_mul_inequality;

/// Magnitude bound on logical range endpoints and pixel endpoints, so
/// that every mapped pixel value fits in an `i64`.
pub const COORD_LIMIT: i32 = 0x4000_0000;

/// How far any mapped pixel position can lie from the origin: every
/// axis mapping of any admissible input stays within this bound, so
/// pixel arithmetic downstream fits in an `i64`.
pub const PIXEL_LIMIT: i64 = 0x6000_0000_4000_0000;

/// Why a coordinate operation was refused.
#[derive(Clone, Copy, PartialEq, Eq, Structural, Debug)]
pub enum CoordError {
    /// A numeric range with `min >= max` was supplied.
    EmptyRange,
    /// A non-positive value was handed to a logarithmic spec.
    NonPositive,
    /// A label not listed by a discrete spec was handed to it.
    UnknownLabel,
    /// A discrete spec was built from no labels at all.
    EmptyDomain,
    /// A discrete spec was built from labels that repeat.
    DuplicateLabel,
    /// A value of the wrong kind was handed to a spec (a label to a
    /// numeric axis, or a number to a discrete axis).
    ValueKindMismatch,
}

/// A linear mapping from the logical range `[min, max]` onto the pixel
/// range from `lo` to `hi` (decreasing when `hi < lo`).
#[derive(Clone, Copy, PartialEq, Eq, Structural, Debug)]
pub struct LinearSpec {
    pub min: i32,
    pub max: i32,
    pub lo: i32,
    pub hi: i32,
}

/// Where a linear spec sends the logical value `v`:
/// `lo + (v - min) * (hi - lo) / (max - min)`, rounded to nearest.
pub open spec fn linear_map_at(s: LinearSpec, v: int) -> int {
    s.lo + round_div((v - s.min) * (s.hi - s.lo), s.max - s.min)
}

impl LinearSpec {
    /// The spec's internal invariant: a non-empty logical range and
    /// endpoints small enough that mapping cannot overflow.
    pub open spec fn wf(&self) -> bool {
        &&& self.min < self.max
        &&& -COORD_LIMIT <= self.min <= COORD_LIMIT
        &&& -COORD_LIMIT <= self.max <= COORD_LIMIT
        &&& -COORD_LIMIT <= self.lo <= COORD_LIMIT
        &&& -COORD_LIMIT <= self.hi <= COORD_LIMIT
    }

    /// Builds a linear spec; refuses an empty logical range.
    pub fn new(min: i32, max: i32, lo: i32, hi: i32) -> (r: Result<LinearSpec, CoordError>)
        requires
            -COORD_LIMIT <= min <= COORD_LIMIT,
            -COORD_LIMIT <= max <= COORD_LIMIT,
            -COORD_LIMIT <= lo <= COORD_LIMIT,
            -COORD_LIMIT <= hi <= COORD_LIMIT,
        ensures
            min < max ==> r == Ok::<LinearSpec, CoordError>(LinearSpec { min, max, lo, hi }),
            min >= max ==> r == Err::<LinearSpec, CoordError>(CoordError::EmptyRange),
            r matches Ok(s) ==> s.wf(),
    {
        if min < max {
            Ok(LinearSpec { min, max, lo, hi })
        } else {
            Err(CoordError::EmptyRange)
        }
    }

    /// Maps a logical value to a pixel position.  Values outside
    /// `[min, max]` map outside the pixel range; nothing is clamped.
    pub fn map(&self, v: i32) -> (p: i64)
        requires
            self.wf(),
        ensures
            p == linear_map_at(*self, v as int),
            -PIXEL_LIMIT <= p <= PIXEL_LIMIT,
    {
        let d: i128 = (v as i128) - (self.min as i128);
        let span: i128 = (self.hi as i128) - (self.lo as i128);
        let dom: i128 = (self.max as i128) - (self.min as i128);
        proof {
            assert(-0xC000_0000 <= d <= 0xC000_0000 && -0x8000_0000 <= span <= 0x8000_0000);
            assert(-0x6000_0000_0000_0000 <= d * span <= 0x6000_0000_0000_0000)
                by (nonlinear_arith)
                requires
                    -0xC000_0000 <= d <= 0xC000_0000 && -0x8000_0000 <= span <= 0x8000_0000,
            ;
        }
        let q: i128 = round_div_i128(d * span, dom);
        let p: i128 = (self.lo as i128) + q;
        p as i64
    }
}

/// A linear spec sends the endpoints of its logical range exactly to
/// the endpoints of its pixel range.
pub proof fn lemma_linear_endpoints(s: LinearSpec)
    requires
        s.wf(),
    ensures
        linear_map_at(s, s.min as int) == s.lo,
        linear_map_at(s, s.max as int) == s.hi,
{
    let span = s.hi - s.lo;
    let dom = s.max - s.min;
    assert((s.min - s.min) * (s.hi - s.lo) == 0 * (s.max - s.min)) by (nonlinear_arith);
    lemma_round_div_exact(0, dom);
    assert((s.max - s.min) * (s.hi - s.lo) == (s.hi - s.lo) * (s.max - s.min))
        by (nonlinear_arith);
    lemma_round_div_exact(span, dom);
}

/// A linear spec is monotone: increasing when `lo <= hi`, decreasing
/// when `hi <= lo`.
pub proof fn lemma_linear_monotone(s: LinearSpec, v1: int, v2: int)
    requires
        s.wf(),
        v1 <= v2,
    ensures
        s.lo <= s.hi ==> linear_map_at(s, v1) <= linear_map_at(s, v2),
        s.hi <= s.lo ==> linear_map_at(s, v2) <= linear_map_at(s, v1),
{
    let span = s.hi - s.lo;
    let dom = s.max - s.min;
    if span >= 0 {
        lemma_mul_inequality(v1 - s.min, v2 - s.min, span);
        lemma_round_div_mono((v1 - s.min) * span, (v2 - s.min) * span, dom);
    }
    if span <= 0 {
        lemma_mul_inequality(v1 - s.min, v2 - s.min, -span);
        assert((v1 - s.min) * (-span) == -((v1 - s.min) * span)) by (nonlinear_arith);
        assert((v2 - s.min) * (-span) == -((v2 - s.min) * span)) by (nonlinear_arith);
        lemma_round_div_mono((v2 - s.min) * span, (v1 - s.min) * span, dom);
    }
}

/// A categorical mapping: an ordered sequence of distinct labels, each
/// sent to the centre of its evenly spaced slot within the pixel range.
#[derive(Debug)]
pub struct DiscreteSpec {
    pub labels: Vec<Vec<u8>>,
    pub lo: i32,
    pub hi: i32,
}

/// Whether a label sequence is free of repeats.
pub open spec fn labels_distinct(ls: Seq<Vec<u8>>) -> bool {
    forall|i: int, j: int| 0 <= i < j < ls.len() ==> ls[i]@ != ls[j]@
}

/// Whether `l` is one of the spec's labels.
pub open spec fn has_label(s: DiscreteSpec, l: Seq<u8>) -> bool {
    exists|i: int| 0 <= i < s.labels@.len() && s.labels@[i]@ == l
}

/// The position of `l` among the spec's labels.
pub open spec fn label_index(s: DiscreteSpec, l: Seq<u8>) -> int {
    choose|i: int| 0 <= i < s.labels@.len() && s.labels@[i]@ == l
}

/// The pixel centre of slot `i`: with `n` labels, slot `i` covers the
/// `i`-th of `n` equal parts of the pixel range, and the label maps to
/// that part's midpoint.
pub open spec fn slot_center(s: DiscreteSpec, i: int) -> int {
    s.lo + round_div((2 * i + 1) * (s.hi - s.lo), 2 * s.labels@.len() as int)
}

impl DiscreteSpec {
    /// The spec's internal invariant: at least one label, no repeated
    /// labels, and few enough of them that slot arithmetic cannot
    /// overflow.
    pub open spec fn wf(&self) -> bool {
        &&& 0 < self.labels@.len() <= 0x10_0000
        &&& labels_distinct(self.labels@)
        &&& -COORD_LIMIT <= self.lo <= COORD_LIMIT
        &&& -COORD_LIMIT <= self.hi <= COORD_LIMIT
    }

    /// Builds a discrete spec; refuses an empty label list and
    /// repeated labels.
    pub fn new(labels: Vec<Vec<u8>>, lo: i32, hi: i32) -> (r: Result<DiscreteSpec, CoordError>)
        requires
            labels@.len() <= 0x10_0000,
            -COORD_LIMIT <= lo <= COORD_LIMIT,
            -COORD_LIMIT <= hi <= COORD_LIMIT,
        ensures
            labels@.len() == 0 ==> r == Err::<DiscreteSpec, CoordError>(CoordError::EmptyDomain),
            labels@.len() > 0 && !labels_distinct(labels@) ==> r == Err::<DiscreteSpec, CoordError>(
                CoordError::DuplicateLabel,
            ),
            labels@.len() > 0 && labels_distinct(labels@) ==> (r matches Ok(s) && s.labels
                == labels && s.lo == lo && s.hi == hi && s.wf()),
    {
        if labels.len() == 0 {
            return Err(CoordError::EmptyDomain);
        }
        let mut i: usize = 0;
        while i < labels.len()
            invariant
                i <= labels@.len(),
                forall|a: int, b: int| 0 <= a < b < labels@.len() && a < i ==> labels@[a]@
                    != labels@[b]@,
            decreases labels@.len() - i,
        {
            let mut j: usize = i + 1;
            while j < labels.len()
                invariant
                    i < j <= labels@.len(),
                    i < labels@.len(),
                    forall|b: int| i < b < j ==> labels@[i as int]@ != labels@[b]@,
                decreases labels@.len() - j,
            {
                if bytes_eq(labels[i].as_slice(), labels[j].as_slice()) {
                    proof {
                        assert(labels@[i as int]@ == labels@[j as int]@);
                        assert(!labels_distinct(labels@)) by {
                            if labels_distinct(labels@) {
                                assert(labels@[i as int]@ != labels@[j as int]@);
                            }
                        }
                    }
                    return Err(CoordError::DuplicateLabel);
                }
                j += 1;
            }
            i += 1;
        }
        Ok(DiscreteSpec { labels, lo, hi })
    }

    /// Maps a label to the pixel centre of its slot; an unlisted label
    /// is an error.
    pub fn map(&self, label: &[u8]) -> (r: Result<i64, CoordError>)
        requires
            self.wf(),
        ensures
            r matches Ok(p) ==> has_label(*self, label@) && p == slot_center(
                *self,
                label_index(*self, label@),
            ) && -PIXEL_LIMIT <= p <= PIXEL_LIMIT,
            r matches Err(e) ==> !has_label(*self, label@) && e == CoordError::UnknownLabel,
    {
        let n: usize = self.labels.len();
        let mut i: usize = 0;
        while i < n
            invariant
                self.wf(),
                n == self.labels@.len(),
                i <= n,
                forall|j: int| 0 <= j < i ==> self.labels@[j]@ != label@,
            decreases n - i,
        {
            if bytes_eq(self.labels[i].as_slice(), label) {
                let span: i128 = (self.hi as i128) - (self.lo as i128);
                let m: i128 = 2 * (i as i128) + 1;
                proof {
                    assert(0 < m <= 0x20_0001 && -0x1_0000_0000 <= span <= 0x1_0000_0000);
                    assert(-0x20_0001_0000_0000 <= m * span <= 0x20_0001_0000_0000)
                        by (nonlinear_arith)
                        requires
                            0 < m <= 0x20_0001 && -0x1_0000_0000 <= span <= 0x1_0000_0000,
                    ;
                }
                let num: i128 = m * span;
                let q: i128 = round_div_i128(num, 2 * (n as i128));
                let p: i128 = (self.lo as i128) + q;
                proof {
                    assert(self.labels@[i as int]@ == label@);
                    assert(has_label(*self, label@));
                    let li = label_index(*self, label@);
                    assert(0 <= li < self.labels@.len() && self.labels@[li]@ == label@);
                    assert(li == i as int);
                    assert(p == slot_center(*self, li));
                    assert(-0x8000_0000_0000_0000 < p < 0x8000_0000_0000_0000);
                }
                return Ok(p as i64);
            }
            i += 1;
        }
        Err(CoordError::UnknownLabel)
    }
}

} // verus!
