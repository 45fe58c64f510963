//! Two-dimensional coordinate specs: the independent pairing of two
//! one-dimensional axes, each linear, logarithmic, discrete, or the
//! identity over pixel space.
use vstd::prelude::*;

verus! {

use crate::coord::{
    has_label, label_index, linear_map_at, slot_center, CoordError, DiscreteSpec, LinearSpec,
    PIXEL_LIMIT,
};
use crate::logscale::{log_map_at, LogSpec};
use crate::coord::labels_distinct;

/// A logical value for one axis: a number for identity, linear and
/// logarithmic axes, a label for discrete axes.
#[derive(Clone, PartialEq, Eq, Debug)]
pub enum AxisValue {
    Num(i32),
    Label(Vec<u8>),
}

/// A one-dimensional coordinate spec.
#[derive(Debug)]
pub enum AxisSpec {
    /// The identity pixel mapping: a number passes through unchanged.
    Identity,
    Linear(LinearSpec),
    Log(LogSpec),
    Discrete(DiscreteSpec),
}

/// Where an axis sends a logical value, or why it refuses it.
pub open spec fn axis_map_at(a: AxisSpec, v: AxisValue) -> Result<int, CoordError> {
    match a {
        AxisSpec::Identity => match v {
            AxisValue::Num(x) => Ok(x as int),
            AxisValue::Label(_) => Err(CoordError::ValueKindMismatch),
        },
        AxisSpec::Linear(s) => match v {
            AxisValue::Num(x) => Ok(linear_map_at(s, x as int)),
            AxisValue::Label(_) => Err(CoordError::ValueKindMismatch),
        },
        AxisSpec::Log(s) => match v {
            AxisValue::Num(x) => if x < 1 {
                Err(CoordError::NonPositive)
            } else {
                Ok(log_map_at(s, x as int))
            },
            AxisValue::Label(_) => Err(CoordError::ValueKindMismatch),
        },
        AxisSpec::Discrete(s) => match v {
            AxisValue::Num(_) => Err(CoordError::ValueKindMismatch),
            AxisValue::Label(l) => if has_label(s, l@) {
                Ok(slot_center(s, label_index(s, l@)))
            } else {
                Err(CoordError::UnknownLabel)
            },
        },
    }
}

impl AxisSpec {
    /// The underlying spec's invariant.
    pub open spec fn wf(&self) -> bool {
        match *self {
            AxisSpec::Identity => true,
            AxisSpec::Linear(s) => s.wf(),
            AxisSpec::Log(s) => s.wf(),
            AxisSpec::Discrete(s) => s.wf(),
        }
    }

    /// Maps a logical value to a pixel position along this axis.
    pub fn map(&self, v: &AxisValue) -> (r: Result<i64, CoordError>)
        requires
            self.wf(),
        ensures
            r matches Ok(p) ==> axis_map_at(*self, *v) == Ok::<int, CoordError>(p as int)
                && -PIXEL_LIMIT <= p <= PIXEL_LIMIT,
            r matches Err(e) ==> axis_map_at(*self, *v) == Err::<int, CoordError>(e),
    {
        match self {
            AxisSpec::Identity => match v {
                AxisValue::Num(x) => Ok(*x as i64),
                AxisValue::Label(_) => Err(CoordError::ValueKindMismatch),
            },
            AxisSpec::Linear(s) => match v {
                AxisValue::Num(x) => Ok(s.map(*x)),
                AxisValue::Label(_) => Err(CoordError::ValueKindMismatch),
            },
            AxisSpec::Log(s) => match v {
                AxisValue::Num(x) => s.map(*x),
                AxisValue::Label(_) => Err(CoordError::ValueKindMismatch),
            },
            AxisSpec::Discrete(s) => match v {
                AxisValue::Num(_) => Err(CoordError::ValueKindMismatch),
                AxisValue::Label(l) => s.map(l.as_slice()),
            },
        }
    }
}

/// A 2-D coordinate spec: the pure structural pairing of an X axis and
/// a Y axis, with no cross-axis coupling.
#[derive(Debug)]
pub struct Coord2 {
    pub x: AxisSpec,
    pub y: AxisSpec,
}

/// Where a 2-D spec sends a logical point: each axis translates its own
/// component; an X error is reported before a Y error.
pub open spec fn coord2_map_at(c: Coord2, vx: AxisValue, vy: AxisValue) -> Result<
    (int, int),
    CoordError,
> {
    match axis_map_at(c.x, vx) {
        Err(e) => Err(e),
        Ok(px) => match axis_map_at(c.y, vy) {
            Err(e) => Err(e),
            Ok(py) => Ok((px, py)),
        },
    }
}

impl Coord2 {
    /// Both axes' invariants.
    pub open spec fn wf(&self) -> bool {
        self.x.wf() && self.y.wf()
    }

    /// The identity 2-D spec: logical points are already pixels.
    pub fn identity() -> (c: Coord2)
        ensures
            c.x == AxisSpec::Identity,
            c.y == AxisSpec::Identity,
            c.wf(),
    {
        Coord2 { x: AxisSpec::Identity, y: AxisSpec::Identity }
    }

    /// Translates a logical point into pixel space, each axis
    /// independently.
    pub fn translate(&self, v: &(AxisValue, AxisValue)) -> (r: Result<(i64, i64), CoordError>)
        requires
            self.wf(),
        ensures
            r matches Ok(p) ==> coord2_map_at(*self, v.0, v.1) == Ok::<(int, int), CoordError>(
                (p.0 as int, p.1 as int),
            ) && -PIXEL_LIMIT <= p.0 <= PIXEL_LIMIT && -PIXEL_LIMIT <= p.1 <= PIXEL_LIMIT,
            r matches Err(e) ==> coord2_map_at(*self, v.0, v.1) == Err::<(int, int), CoordError>(e),
    {
        let px = match self.x.map(&v.0) {
            Ok(p) => p,
            Err(e) => {
                return Err(e);
            },
        };
        let py = match self.y.map(&v.1) {
            Ok(p) => p,
            Err(e) => {
                return Err(e);
            },
        };
        Ok((px, py))
    }
}

/// A logical range for one axis, before the pixel side is known: the
/// drawing area the spec is attached to supplies the pixel endpoints.
#[derive(Debug)]
pub enum AxisRange {
    Linear { min: i32, max: i32 },
    Log { min: i32, max: i32 },
    Discrete { labels: Vec<Vec<u8>> },
}

/// What `build_axis` must hand back for a given range and pixel span.
pub open spec fn axis_build_outcome(
    range: AxisRange,
    lo: i32,
    hi: i32,
    r: Result<AxisSpec, CoordError>,
) -> bool {
    match range {
        AxisRange::Linear { min, max } => if min < max {
            r == Ok::<AxisSpec, CoordError>(AxisSpec::Linear(LinearSpec { min, max, lo, hi }))
        } else {
            r == Err::<AxisSpec, CoordError>(CoordError::EmptyRange)
        },
        AxisRange::Log { min, max } => if min >= 1 && min < max && crate::logscale::log_fix(
            min as int,
        ) < crate::logscale::log_fix(max as int) {
            r == Ok::<AxisSpec, CoordError>(AxisSpec::Log(LogSpec { min, max, lo, hi }))
        } else {
            r matches Err(_)
        },
        AxisRange::Discrete { labels } => if labels@.len() > 0 && labels_distinct(labels@) {
            match r {
                Ok(a) => match a {
                    AxisSpec::Discrete(s) => s.labels@ == labels@ && s.lo == lo && s.hi == hi,
                    _ => false,
                },
                Err(_) => false,
            }
        } else {
            r matches Err(_)
        },
    }
}

/// Builds the axis spec that maps `range` onto the pixel span from
/// `lo` to `hi`.
pub fn build_axis(range: AxisRange, lo: i32, hi: i32) -> (r: Result<AxisSpec, CoordError>)
    requires
        -crate::coord::COORD_LIMIT <= lo <= crate::coord::COORD_LIMIT,
        -crate::coord::COORD_LIMIT <= hi <= crate::coord::COORD_LIMIT,
        range matches AxisRange::Discrete { labels } ==> labels@.len() <= 0x10_0000,
        range matches AxisRange::Linear { min, max } ==> -crate::coord::COORD_LIMIT <= min
            <= crate::coord::COORD_LIMIT && -crate::coord::COORD_LIMIT <= max
            <= crate::coord::COORD_LIMIT,
    ensures
        axis_build_outcome(range, lo, hi, r),
        r matches Ok(a) ==> a.wf(),
{
    match range {
        AxisRange::Linear { min, max } => match LinearSpec::new(min, max, lo, hi) {
            Ok(s) => Ok(AxisSpec::Linear(s)),
            Err(e) => Err(e),
        },
        AxisRange::Log { min, max } => match LogSpec::new(min, max, lo, hi) {
            Ok(s) => Ok(AxisSpec::Log(s)),
            Err(e) => Err(e),
        },
        AxisRange::Discrete { labels } => match DiscreteSpec::new(labels, lo, hi) {
            Ok(s) => Ok(AxisSpec::Discrete(s)),
            Err(e) => Err(e),
        },
    }
}

} // verus!
