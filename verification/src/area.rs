//! Drawing areas: rectangular pixel regions with an attached 2-D
//! coordinate spec, sub-dividable into child regions.
//!
//! An area is a lightweight view — a pixel rectangle plus a spec — and
//! never owns pixel data.  Splitting and margining produce child areas
//! with the identity spec; `apply_coord_spec` attaches a logical
//! mapping whose pixel output range is the area's own rectangle.  A
//! degenerate (zero-width or zero-height) area is legal and resolves
//! elements as usual; backends simply have nothing inside it to paint.
use vstd::prelude::*;

verus! {

use crate::axes::{axis_build_outcome, build_axis, coord2_map_at, AxisRange, AxisSpec, Coord2};
use crate::bytes::clone_bytes;
use crate::coord::{CoordError, COORD_LIMIT, PIXEL_LIMIT};
use crate::element::{
    prim_offsets_ok, prim_resolves_to, resolve_spec, ComposedElement, DrawCommand, Element,
    LocalPrimitive, OFFSET_LIMIT,
};
use crate::style::{RgbaColor, ShapeStyle};

/// A pixel rectangle with `x0 <= x1` and `y0 <= y1`; `(x0, y0)` is the
/// upper-left corner under the usual screen-down convention.
#[derive(Clone, Copy, PartialEq, Eq, Structural, Debug)]
pub struct PixelRect {
    pub x0: i32,
    pub y0: i32,
    pub x1: i32,
    pub y1: i32,
}

impl PixelRect {
    /// Non-negative extent, bounded corners.
    pub open spec fn wf(&self) -> bool {
        &&& self.x0 <= self.x1
        &&& self.y0 <= self.y1
        &&& -COORD_LIMIT <= self.x0 <= COORD_LIMIT
        &&& -COORD_LIMIT <= self.x1 <= COORD_LIMIT
        &&& -COORD_LIMIT <= self.y0 <= COORD_LIMIT
        &&& -COORD_LIMIT <= self.y1 <= COORD_LIMIT
    }
}

/// Half-open point membership: the convention under which an even
/// split tiles its parent exactly, with no point in two cells.
pub open spec fn rect_covers(r: PixelRect, x: int, y: int) -> bool {
    r.x0 <= x < r.x1 && r.y0 <= y < r.y1
}

/// The `j`-th boundary of an even split of a span of `width` pixels
/// starting at `start` into `n` parts: remainder pixels all land in the
/// last part, so the last boundary is pinned to the far edge.
pub open spec fn seg_edge(start: int, width: int, n: int, j: int) -> int {
    if j >= n {
        start + width
    } else {
        start + j * (width / n)
    }
}

/// Whether `cell` is the `k`-th (row-major) cell of the even
/// `rows x cols` split of `parent`.
pub open spec fn is_split_cell(cell: PixelRect, parent: PixelRect, rows: int, cols: int, k: int) -> bool {
    let i = k / cols;
    let j = k % cols;
    &&& cell.x0 == seg_edge(parent.x0 as int, parent.x1 - parent.x0, cols, j)
    &&& cell.x1 == seg_edge(parent.x0 as int, parent.x1 - parent.x0, cols, j + 1)
    &&& cell.y0 == seg_edge(parent.y0 as int, parent.y1 - parent.y0, rows, i)
    &&& cell.y1 == seg_edge(parent.y0 as int, parent.y1 - parent.y0, rows, i + 1)
}

/// The rectangle left after insetting `r` by the given pixel amounts,
/// clamped so that an oversized inset yields a degenerate rectangle
/// rather than a negative one.
pub open spec fn margin_rect(r: PixelRect, top: int, bottom: int, left: int, right: int) -> PixelRect {
    let nx0 = if r.x0 + left <= r.x1 {
        r.x0 + left
    } else {
        r.x1 as int
    };
    let ny0 = if r.y0 + top <= r.y1 {
        r.y0 + top
    } else {
        r.y1 as int
    };
    let nx1 = if nx0 <= r.x1 - right {
        r.x1 - right
    } else {
        nx0
    };
    let ny1 = if ny0 <= r.y1 - bottom {
        r.y1 - bottom
    } else {
        ny0
    };
    PixelRect { x0: nx0 as i32, y0: ny0 as i32, x1: nx1 as i32, y1: ny1 as i32 }
}

/// A rectangular drawing region plus the coordinate spec that maps
/// logical values into it.
#[derive(Debug)]
pub struct DrawingArea {
    pub rect: PixelRect,
    pub axes: Coord2,
}

impl DrawingArea {
    /// The area's internal invariant.
    pub open spec fn wf(&self) -> bool {
        self.rect.wf() && self.axes.wf()
    }

    /// The root area over a backend surface of the given size, with
    /// the identity pixel mapping.
    pub fn from_surface(width: u32, height: u32) -> (a: DrawingArea)
        requires
            width <= COORD_LIMIT,
            height <= COORD_LIMIT,
        ensures
            a.rect == (PixelRect { x0: 0, y0: 0, x1: width as i32, y1: height as i32 }),
            a.axes.x == AxisSpec::Identity,
            a.axes.y == AxisSpec::Identity,
            a.wf(),
    {
        DrawingArea {
            rect: PixelRect { x0: 0, y0: 0, x1: width as i32, y1: height as i32 },
            axes: Coord2::identity(),
        }
    }

    /// A child area inset by the given pixel amounts, with the identity
    /// spec.  An inset that exceeds the rectangle is clamped, leaving a
    /// degenerate (empty) child rather than an error.
    pub fn margin(&self, top: u32, bottom: u32, left: u32, right: u32) -> (a: DrawingArea)
        requires
            self.wf(),
        ensures
            a.rect == margin_rect(self.rect, top as int, bottom as int, left as int, right as int),
            a.axes.x == AxisSpec::Identity,
            a.axes.y == AxisSpec::Identity,
            a.wf(),
    {
        let x0l: i64 = self.rect.x0 as i64 + left as i64;
        let y0l: i64 = self.rect.y0 as i64 + top as i64;
        let nx0: i32 = if x0l <= self.rect.x1 as i64 {
            x0l as i32
        } else {
            self.rect.x1
        };
        let ny0: i32 = if y0l <= self.rect.y1 as i64 {
            y0l as i32
        } else {
            self.rect.y1
        };
        let x1l: i64 = self.rect.x1 as i64 - right as i64;
        let y1l: i64 = self.rect.y1 as i64 - bottom as i64;
        let nx1: i32 = if nx0 as i64 <= x1l {
            x1l as i32
        } else {
            nx0
        };
        let ny1: i32 = if ny0 as i64 <= y1l {
            y1l as i32
        } else {
            ny0
        };
        DrawingArea {
            rect: PixelRect { x0: nx0, y0: ny0, x1: nx1, y1: ny1 },
            axes: Coord2::identity(),
        }
    }

    /// Attaches a 2-D coordinate spec built from two logical ranges;
    /// the pixel output range is this area's own rectangle.  X maps
    /// `min` to the left edge and `max` to the right edge; Y maps `min`
    /// to the bottom edge and `max` to the top edge (screen-down
    /// convention).
    pub fn apply_coord_spec(&self, x: AxisRange, y: AxisRange) -> (r: Result<
        DrawingArea,
        CoordError,
    >)
        requires
            self.wf(),
            x matches AxisRange::Discrete { labels } ==> labels@.len() <= 0x10_0000,
            y matches AxisRange::Discrete { labels } ==> labels@.len() <= 0x10_0000,
            x matches AxisRange::Linear { min, max } ==> -COORD_LIMIT <= min <= COORD_LIMIT
                && -COORD_LIMIT <= max <= COORD_LIMIT,
            y matches AxisRange::Linear { min, max } ==> -COORD_LIMIT <= min <= COORD_LIMIT
                && -COORD_LIMIT <= max <= COORD_LIMIT,
        ensures
            r matches Ok(a) ==> a.rect == self.rect && a.wf() && axis_build_outcome(
                x,
                self.rect.x0,
                self.rect.x1,
                Ok(a.axes.x),
            ) && axis_build_outcome(y, self.rect.y1, self.rect.y0, Ok(a.axes.y)),
            r matches Err(e) ==> (axis_build_outcome(x, self.rect.x0, self.rect.x1, Err(e))
                || axis_build_outcome(y, self.rect.y1, self.rect.y0, Err(e))),
    {
        let ax = match build_axis(x, self.rect.x0, self.rect.x1) {
            Ok(a) => a,
            Err(e) => {
                return Err(e);
            },
        };
        let ay = match build_axis(y, self.rect.y1, self.rect.y0) {
            Ok(a) => a,
            Err(e) => {
                return Err(e);
            },
        };
        Ok(DrawingArea { rect: self.rect, axes: Coord2 { x: ax, y: ay } })
    }

    /// The command that paints the whole area: a filled rectangle over
    /// the full pixel rectangle, bypassing the coordinate spec.
    pub fn fill(&self, color: RgbaColor) -> (c: DrawCommand)
        requires
            self.wf(),
        ensures
            c == (DrawCommand::Rect {
                x0: self.rect.x0 as i64,
                y0: self.rect.y0 as i64,
                x1: self.rect.x1 as i64,
                y1: self.rect.y1 as i64,
                style: ShapeStyle { color, filled: true },
            }),
    {
        DrawCommand::Rect {
            x0: self.rect.x0 as i64,
            y0: self.rect.y0 as i64,
            x1: self.rect.x1 as i64,
            y1: self.rect.y1 as i64,
            style: ShapeStyle { color, filled: true },
        }
    }

    /// Resolves an element into the pixel commands it stands for,
    /// translating each logical coordinate through the attached spec
    /// exactly once; the first coordinate error aborts the resolution.
    #[verifier::loop_isolation(false)]
    pub fn resolve(&self, e: &Element) -> (r: Result<Vec<DrawCommand>, CoordError>)
        requires
            self.wf(),
            e.wf(),
        ensures
            resolve_spec(self.axes, *e, r),
    {
        match e {
            Element::Pixel { at, style } => {
                let p = match self.axes.translate(at) {
                    Ok(p) => p,
                    Err(e0) => {
                        return Err(e0);
                    },
                };
                let mut out: Vec<DrawCommand> = Vec::new();
                out.push(DrawCommand::Pixel { x: p.0, y: p.1, style: *style });
                Ok(out)
            },
            Element::Line { from, to, style } => {
                let p0 = match self.axes.translate(from) {
                    Ok(p) => p,
                    Err(e0) => {
                        return Err(e0);
                    },
                };
                let p1 = match self.axes.translate(to) {
                    Ok(p) => p,
                    Err(e0) => {
                        return Err(e0);
                    },
                };
                let mut out: Vec<DrawCommand> = Vec::new();
                out.push(
                    DrawCommand::Line { x0: p0.0, y0: p0.1, x1: p1.0, y1: p1.1, style: *style },
                );
                Ok(out)
            },
            Element::Rect { corner0, corner1, style } => {
                let p0 = match self.axes.translate(corner0) {
                    Ok(p) => p,
                    Err(e0) => {
                        return Err(e0);
                    },
                };
                let p1 = match self.axes.translate(corner1) {
                    Ok(p) => p,
                    Err(e0) => {
                        return Err(e0);
                    },
                };
                let mut out: Vec<DrawCommand> = Vec::new();
                out.push(
                    DrawCommand::Rect { x0: p0.0, y0: p0.1, x1: p1.0, y1: p1.1, style: *style },
                );
                Ok(out)
            },
            Element::Path { points, style } => {
                let mut pts: Vec<(i64, i64)> = Vec::new();
                let mut i: usize = 0;
                while i < points.len()
                    invariant
                        self.wf(),
                        i <= points@.len(),
                        pts@.len() == i,
                        forall|j: int|
                            0 <= j < i ==> #[trigger] coord2_map_at(
                                self.axes,
                                points@[j].0,
                                points@[j].1,
                            ) == Ok::<(int, int), CoordError>((pts@[j].0 as int, pts@[j].1 as int)),
                    decreases points@.len() - i,
                {
                    match self.axes.translate(&points[i]) {
                        Ok(p) => {
                            pts.push(p);
                        },
                        Err(e0) => {
                            proof {
                                assert(coord2_map_at(self.axes, points@[i as int].0, points@[i as int].1)
                                    == Err::<(int, int), CoordError>(e0));
                                assert(forall|j: int|
                                    0 <= j < i ==> (#[trigger] coord2_map_at(
                                        self.axes,
                                        points@[j].0,
                                        points@[j].1,
                                    ) matches Ok(_)));
                                assert(exists|ii: int|
                                    0 <= ii < points@.len() && #[trigger] coord2_map_at(
                                        self.axes,
                                        points@[ii].0,
                                        points@[ii].1,
                                    ) == Err::<(int, int), CoordError>(e0) && (forall|j: int|
                                        0 <= j < ii ==> (#[trigger] coord2_map_at(
                                            self.axes,
                                            points@[j].0,
                                            points@[j].1,
                                        ) matches Ok(_))));
                            }
                            return Err(e0);
                        },
                    }
                    i += 1;
                }
                let mut out: Vec<DrawCommand> = Vec::new();
                out.push(DrawCommand::Path { points: pts, style: *style });
                Ok(out)
            },
            Element::Circle { center, radius, style } => {
                let p = match self.axes.translate(center) {
                    Ok(p) => p,
                    Err(e0) => {
                        return Err(e0);
                    },
                };
                let mut out: Vec<DrawCommand> = Vec::new();
                out.push(DrawCommand::Circle { x: p.0, y: p.1, radius: *radius, style: *style });
                Ok(out)
            },
            Element::Text { text, at, style } => {
                let p = match self.axes.translate(at) {
                    Ok(p) => p,
                    Err(e0) => {
                        return Err(e0);
                    },
                };
                let mut out: Vec<DrawCommand> = Vec::new();
                out.push(
                    DrawCommand::Text {
                        text: clone_bytes(text),
                        x: p.0,
                        y: p.1,
                        style: style.clone(),
                    },
                );
                Ok(out)
            },
            Element::Composed(ce) => {
                let p = match self.axes.translate(&ce.anchor) {
                    Ok(p) => p,
                    Err(e0) => {
                        return Err(e0);
                    },
                };
                let mut out: Vec<DrawCommand> = Vec::new();
                let mut k: usize = 0;
                while k < ce.parts.len()
                    invariant
                        ce.wf(),
                        -PIXEL_LIMIT <= p.0 <= PIXEL_LIMIT,
                        -PIXEL_LIMIT <= p.1 <= PIXEL_LIMIT,
                        k <= ce.parts@.len(),
                        out@.len() == k,
                        forall|i: int|
                            0 <= i < k ==> prim_resolves_to(
                                ce.parts@[i],
                                p.0 as int,
                                p.1 as int,
                                #[trigger] out@[i],
                            ),
                    decreases ce.parts@.len() - k,
                {
                    proof {
                        assert(prim_offsets_ok(ce.parts@[k as int]));
                    }
                    let cmd: DrawCommand = match &ce.parts[k] {
                        LocalPrimitive::Pixel { dx, dy, style } => DrawCommand::Pixel {
                            x: p.0 + *dx,
                            y: p.1 + *dy,
                            style: *style,
                        },
                        LocalPrimitive::Line { dx0, dy0, dx1, dy1, style } => DrawCommand::Line {
                            x0: p.0 + *dx0,
                            y0: p.1 + *dy0,
                            x1: p.0 + *dx1,
                            y1: p.1 + *dy1,
                            style: *style,
                        },
                        LocalPrimitive::Rect { dx0, dy0, dx1, dy1, style } => DrawCommand::Rect {
                            x0: p.0 + *dx0,
                            y0: p.1 + *dy0,
                            x1: p.0 + *dx1,
                            y1: p.1 + *dy1,
                            style: *style,
                        },
                        LocalPrimitive::Path { offsets, style } => {
                            let mut shifted: Vec<(i64, i64)> = Vec::new();
                            let mut m: usize = 0;
                            while m < offsets.len()
                                invariant
                                    -PIXEL_LIMIT <= p.0 <= PIXEL_LIMIT,
                                    -PIXEL_LIMIT <= p.1 <= PIXEL_LIMIT,
                                    forall|t: int|
                                        0 <= t < offsets@.len() ==> -OFFSET_LIMIT
                                            <= #[trigger] offsets@[t].0 <= OFFSET_LIMIT
                                            && -OFFSET_LIMIT <= offsets@[t].1 <= OFFSET_LIMIT,
                                    m <= offsets@.len(),
                                    shifted@.len() == m,
                                    forall|t: int|
                                        0 <= t < m ==> #[trigger] shifted@[t].0 == p.0
                                            + offsets@[t].0 && shifted@[t].1 == p.1
                                            + offsets@[t].1,
                                decreases offsets@.len() - m,
                            {
                                let (dx, dy) = offsets[m];
                                shifted.push((p.0 + dx, p.1 + dy));
                                m += 1;
                            }
                            DrawCommand::Path { points: shifted, style: *style }
                        },
                        LocalPrimitive::Circle { dx, dy, radius, style } => DrawCommand::Circle {
                            x: p.0 + *dx,
                            y: p.1 + *dy,
                            radius: *radius,
                            style: *style,
                        },
                        LocalPrimitive::Text { text, dx, dy, style } => DrawCommand::Text {
                            text: clone_bytes(text),
                            x: p.0 + *dx,
                            y: p.1 + *dy,
                            style: style.clone(),
                        },
                    };
                    out.push(cmd);
                    k += 1;
                }
                Ok(out)
            },
        }
    }

    /// Partitions the area into `rows * cols` sub-areas of equal size
    /// in row-major order; remainder pixels go to the last row and
    /// column, so the cells tile the parent rectangle exactly.  Cells
    /// of a degenerate parent are degenerate and legal.  Children carry
    /// the identity spec.
    pub fn split_evenly(&self, rows: usize, cols: usize) -> (r: Vec<DrawingArea>)
        requires
            self.wf(),
            1 <= rows <= 0x8000,
            1 <= cols <= 0x8000,
        ensures
            r@.len() == rows * cols,
            forall|k: int|
                0 <= k < r@.len() ==> is_split_cell(
                    (#[trigger] r@[k]).rect,
                    self.rect,
                    rows as int,
                    cols as int,
                    k,
                ),
            forall|k: int| 0 <= k < r@.len() ==> (#[trigger] r@[k]).wf(),
            forall|k: int|
                0 <= k < r@.len() ==> (#[trigger] r@[k]).axes.x == AxisSpec::Identity && r@[k].axes.y
                    == AxisSpec::Identity,
    {
        let w: i64 = self.rect.x1 as i64 - self.rect.x0 as i64;
        let h: i64 = self.rect.y1 as i64 - self.rect.y0 as i64;
        let qx: i64 = w / (cols as i64);
        let qy: i64 = h / (rows as i64);
        proof {
            lemma_even_split_edges(self.rect.x0 as int, w as int, cols as int);
            lemma_even_split_edges(self.rect.y0 as int, h as int, rows as int);
        }
        let mut out: Vec<DrawingArea> = Vec::new();
        let mut i: usize = 0;
        while i < rows
            invariant
                self.wf(),
                1 <= rows <= 0x8000,
                1 <= cols <= 0x8000,
                w == self.rect.x1 - self.rect.x0,
                h == self.rect.y1 - self.rect.y0,
                qx == w as int / cols as int,
                qy == h as int / rows as int,
                i <= rows,
                out@.len() == i * cols,
                forall|k: int|
                    0 <= k < out@.len() ==> is_split_cell(
                        (#[trigger] out@[k]).rect,
                        self.rect,
                        rows as int,
                        cols as int,
                        k,
                    ),
                forall|k: int| 0 <= k < out@.len() ==> (#[trigger] out@[k]).wf(),
                forall|k: int|
                    0 <= k < out@.len() ==> (#[trigger] out@[k]).axes.x == AxisSpec::Identity
                        && out@[k].axes.y == AxisSpec::Identity,
            decreases rows - i,
        {
            proof {
                crate::rounding::lemma_floor_div_bounds(h as int, rows as int);
                assert(0 <= (i as int) * qy <= 0x8000_0000_0000) by (nonlinear_arith)
                    requires
                        0 <= i as int <= 0x8000 && 0 <= qy <= 0x1_0000_0000,
                ;
                assert(0 <= (i as int + 1) * qy <= 0x8000_0000_0000) by (nonlinear_arith)
                    requires
                        0 <= i as int + 1 <= 0x8000 && 0 <= qy <= 0x1_0000_0000,
                ;
            }
            let y0c: i64 = self.rect.y0 as i64 + (i as i64) * qy;
            let y1c: i64 = if i + 1 == rows {
                self.rect.y1 as i64
            } else {
                self.rect.y0 as i64 + ((i + 1) as i64) * qy
            };
            proof {
                lemma_even_split_edge_bounds(self.rect.y0 as int, h as int, rows as int, i as int);
                lemma_even_split_edge_bounds(
                    self.rect.y0 as int,
                    h as int,
                    rows as int,
                    i as int + 1,
                );
            }
            let mut j: usize = 0;
            while j < cols
                invariant
                    self.wf(),
                    1 <= rows <= 0x8000,
                    1 <= cols <= 0x8000,
                    i < rows,
                    w == self.rect.x1 - self.rect.x0,
                    h == self.rect.y1 - self.rect.y0,
                    qx == w as int / cols as int,
                    qy == h as int / rows as int,
                    y0c == seg_edge(self.rect.y0 as int, h as int, rows as int, i as int),
                    y1c == seg_edge(self.rect.y0 as int, h as int, rows as int, i as int + 1),
                    self.rect.y0 <= y0c <= y1c <= self.rect.y1,
                    j <= cols,
                    out@.len() == i * cols + j,
                    forall|k: int|
                        0 <= k < out@.len() ==> is_split_cell(
                            (#[trigger] out@[k]).rect,
                            self.rect,
                            rows as int,
                            cols as int,
                            k,
                        ),
                    forall|k: int| 0 <= k < out@.len() ==> (#[trigger] out@[k]).wf(),
                    forall|k: int|
                        0 <= k < out@.len() ==> (#[trigger] out@[k]).axes.x == AxisSpec::Identity
                            && out@[k].axes.y == AxisSpec::Identity,
                decreases cols - j,
            {
                proof {
                    crate::rounding::lemma_floor_div_bounds(w as int, cols as int);
                    assert(0 <= (j as int) * qx <= 0x8000_0000_0000) by (nonlinear_arith)
                        requires
                            0 <= j as int <= 0x8000 && 0 <= qx <= 0x1_0000_0000,
                    ;
                    assert(0 <= (j as int + 1) * qx <= 0x8000_0000_0000) by (nonlinear_arith)
                        requires
                            0 <= j as int + 1 <= 0x8000 && 0 <= qx <= 0x1_0000_0000,
                    ;
                }
                let x0c: i64 = self.rect.x0 as i64 + (j as i64) * qx;
                let x1c: i64 = if j + 1 == cols {
                    self.rect.x1 as i64
                } else {
                    self.rect.x0 as i64 + ((j + 1) as i64) * qx
                };
                proof {
                    lemma_even_split_edge_bounds(
                        self.rect.x0 as int,
                        w as int,
                        cols as int,
                        j as int,
                    );
                    lemma_even_split_edge_bounds(
                        self.rect.x0 as int,
                        w as int,
                        cols as int,
                        j as int + 1,
                    );
                    let k = out@.len() as int;
                    vstd::arithmetic::div_mod::lemma_fundamental_div_mod_converse(
                        k,
                        cols as int,
                        i as int,
                        j as int,
                    );
                }
                out.push(
                    DrawingArea {
                        rect: PixelRect {
                            x0: x0c as i32,
                            y0: y0c as i32,
                            x1: x1c as i32,
                            y1: y1c as i32,
                        },
                        axes: Coord2::identity(),
                    },
                );
                j += 1;
            }
            proof {
                assert((i + 1) * cols == i * cols + cols) by (nonlinear_arith);
            }
            i += 1;
        }
        out
    }
}

/// Edges of an even split are ordered and pinned to the span's ends:
/// the zeroth edge is the start, the `n`-th is the end, and each edge
/// stays within the span.
pub proof fn lemma_even_split_edges(start: int, width: int, n: int)
    requires
        width >= 0,
        n >= 1,
    ensures
        seg_edge(start, width, n, 0) == start,
        seg_edge(start, width, n, n) == start + width,
        width / n >= 0,
{
    vstd::arithmetic::div_mod::lemma_div_pos_is_pos(width, n);
    assert(0 * (width / n) == 0) by (nonlinear_arith);
}

/// Every edge of an even split lies within the span, and consecutive
/// edges are ordered.
pub proof fn lemma_even_split_edge_bounds(start: int, width: int, n: int, j: int)
    requires
        width >= 0,
        n >= 1,
        0 <= j <= n,
    ensures
        start <= seg_edge(start, width, n, j) <= start + width,
        j < n ==> seg_edge(start, width, n, j) <= seg_edge(start, width, n, j + 1),
{
    let q = width / n;
    vstd::arithmetic::div_mod::lemma_div_pos_is_pos(width, n);
    vstd::arithmetic::div_mod::lemma_fundamental_div_mod(width, n);
    vstd::arithmetic::div_mod::lemma_mod_division_less_than_divisor(width, n);
    assert(n * q <= width);
    if j < n {
        assert(j * q >= 0) by (nonlinear_arith)
            requires
                j >= 0 && q >= 0,
        ;
        vstd::arithmetic::mul::lemma_mul_inequality(j, n, q);
        assert(j * q <= n * q);
        vstd::arithmetic::mul::lemma_mul_inequality(j + 1, n, q);
        assert(j * q <= (j + 1) * q) by (nonlinear_arith)
            requires
                q >= 0,
        ;
        if j + 1 < n {
        } else {
            assert((j + 1) * q <= n * q);
        }
    }
}

/// Edges of an even split are ordered across any pair of indices.
pub proof fn lemma_seg_edge_ordered(start: int, width: int, n: int, a: int, b: int)
    requires
        width >= 0,
        n >= 1,
        0 <= a <= b <= n,
    ensures
        seg_edge(start, width, n, a) <= seg_edge(start, width, n, b),
{
    let q = width / n;
    vstd::arithmetic::div_mod::lemma_div_pos_is_pos(width, n);
    vstd::arithmetic::div_mod::lemma_fundamental_div_mod(width, n);
    vstd::arithmetic::div_mod::lemma_mod_division_less_than_divisor(width, n);
    assert(n * q <= width);
    if b == n {
        if a < n {
            vstd::arithmetic::mul::lemma_mul_inequality(a, n, q);
            assert(a * q <= n * q);
        }
    } else {
        vstd::arithmetic::mul::lemma_mul_inequality(a, b, q);
    }
}

/// Every point of a span lies in some segment of its even split.
pub proof fn lemma_seg_exists(start: int, width: int, n: int, x: int)
    requires
        width >= 0,
        n >= 1,
        start <= x < start + width,
    ensures
        exists|j: int|
            0 <= j < n && #[trigger] seg_edge(start, width, n, j) <= x < seg_edge(
                start,
                width,
                n,
                j + 1,
            ),
{
    let q = width / n;
    vstd::arithmetic::div_mod::lemma_div_pos_is_pos(width, n);
    if q == 0 {
        let j = n - 1;
        assert((n - 1) * 0 == 0) by (nonlinear_arith);
        assert(seg_edge(start, width, n, j) == start);
        assert(seg_edge(start, width, n, j + 1) == start + width);
        assert(0 <= j < n && seg_edge(start, width, n, j) <= x < seg_edge(start, width, n, j + 1));
    } else {
        let t = (x - start) / q;
        vstd::arithmetic::div_mod::lemma_div_pos_is_pos(x - start, q);
        vstd::arithmetic::div_mod::lemma_fundamental_div_mod(x - start, q);
        vstd::arithmetic::div_mod::lemma_mod_division_less_than_divisor(x - start, q);
        assert(q * t == t * q) by (nonlinear_arith);
        assert((t + 1) * q == t * q + q) by (nonlinear_arith);
        assert(t * q <= x - start < (t + 1) * q);
        if t < n - 1 {
            let j = t;
            assert(seg_edge(start, width, n, j) <= x < seg_edge(start, width, n, j + 1));
            assert(0 <= j < n && seg_edge(start, width, n, j) <= x < seg_edge(
                start,
                width,
                n,
                j + 1,
            ));
        } else {
            let j = n - 1;
            vstd::arithmetic::mul::lemma_mul_inequality(n - 1, t, q);
            assert((n - 1) * q <= t * q);
            assert(seg_edge(start, width, n, j) <= x);
            assert(x < start + width);
            assert(0 <= j < n && seg_edge(start, width, n, j) <= x < seg_edge(
                start,
                width,
                n,
                j + 1,
            ));
        }
    }
}

/// A point lies in at most one segment of an even split.
pub proof fn lemma_seg_unique(start: int, width: int, n: int, x: int, j1: int, j2: int)
    requires
        width >= 0,
        n >= 1,
        0 <= j1 < j2 < n,
        seg_edge(start, width, n, j1) <= x < seg_edge(start, width, n, j1 + 1),
    ensures
        !(seg_edge(start, width, n, j2) <= x < seg_edge(start, width, n, j2 + 1)),
{
    lemma_seg_edge_ordered(start, width, n, j1 + 1, j2);
}

/// The even split tiles its parent exactly: a point lies in the parent
/// rectangle if and only if it lies in some cell, and never in two
/// cells (half-open membership, so shared edges belong to one cell and
/// all pairwise overlaps have zero area).
pub proof fn lemma_split_evenly_tiles(
    parent: PixelRect,
    rows: int,
    cols: int,
    cells: Seq<PixelRect>,
    x: int,
    y: int,
)
    requires
        parent.wf(),
        1 <= rows,
        1 <= cols,
        cells.len() == rows * cols,
        forall|k: int|
            0 <= k < cells.len() ==> is_split_cell(#[trigger] cells[k], parent, rows, cols, k),
    ensures
        rect_covers(parent, x, y) <==> exists|k: int|
            0 <= k < cells.len() && rect_covers(#[trigger] cells[k], x, y),
        forall|k1: int, k2: int|
            0 <= k1 < cells.len() && 0 <= k2 < cells.len() && k1 != k2 ==> !(rect_covers(
                #[trigger] cells[k1],
                x,
                y,
            ) && rect_covers(#[trigger] cells[k2], x, y)),
{
    let w = parent.x1 - parent.x0;
    let h = parent.y1 - parent.y0;
    if rect_covers(parent, x, y) {
        lemma_seg_exists(parent.x0 as int, w, cols, x);
        lemma_seg_exists(parent.y0 as int, h, rows, y);
        let j = choose|j: int|
            0 <= j < cols && #[trigger] seg_edge(parent.x0 as int, w, cols, j) <= x < seg_edge(
                parent.x0 as int,
                w,
                cols,
                j + 1,
            );
        let i = choose|i: int|
            0 <= i < rows && #[trigger] seg_edge(parent.y0 as int, h, rows, i) <= y < seg_edge(
                parent.y0 as int,
                h,
                rows,
                i + 1,
            );
        let k = i * cols + j;
        assert(0 <= k < rows * cols) by (nonlinear_arith)
            requires
                0 <= i < rows && 0 <= j < cols && k == i * cols + j,
        ;
        vstd::arithmetic::div_mod::lemma_fundamental_div_mod_converse(k, cols, i, j);
        assert(is_split_cell(cells[k], parent, rows, cols, k));
        assert(rect_covers(cells[k], x, y));
    }
    assert forall|k: int| 0 <= k < cells.len() && rect_covers(#[trigger] cells[k], x, y) implies
        rect_covers(parent, x, y) by {
        let i = k / cols;
        let j = k % cols;
        vstd::arithmetic::div_mod::lemma_fundamental_div_mod(k, cols);
        vstd::arithmetic::div_mod::lemma_mod_division_less_than_divisor(k, cols);
        vstd::arithmetic::div_mod::lemma_div_pos_is_pos(k, cols);
        assert(cols * rows == rows * cols) by (nonlinear_arith);
        vstd::arithmetic::div_mod::lemma_multiply_divide_lt(k, cols, rows);
        assert(0 <= i < rows && 0 <= j < cols);
        lemma_seg_edge_ordered(parent.x0 as int, w, cols, 0, j);
        lemma_seg_edge_ordered(parent.x0 as int, w, cols, j + 1, cols);
        lemma_seg_edge_ordered(parent.y0 as int, h, rows, 0, i);
        lemma_seg_edge_ordered(parent.y0 as int, h, rows, i + 1, rows);
        assert(0 * (w / cols) == 0 && 0 * (h / rows) == 0) by (nonlinear_arith);
    }
    assert forall|k1: int, k2: int|
        0 <= k1 < cells.len() && 0 <= k2 < cells.len() && k1 != k2 implies !(rect_covers(
        #[trigger] cells[k1],
        x,
        y,
    ) && rect_covers(#[trigger] cells[k2], x, y)) by {
        if rect_covers(cells[k1], x, y) && rect_covers(cells[k2], x, y) {
            let i1 = k1 / cols;
            let j1 = k1 % cols;
            let i2 = k2 / cols;
            let j2 = k2 % cols;
            vstd::arithmetic::div_mod::lemma_fundamental_div_mod(k1, cols);
            vstd::arithmetic::div_mod::lemma_mod_division_less_than_divisor(k1, cols);
            vstd::arithmetic::div_mod::lemma_div_pos_is_pos(k1, cols);
            vstd::arithmetic::div_mod::lemma_fundamental_div_mod(k2, cols);
            vstd::arithmetic::div_mod::lemma_mod_division_less_than_divisor(k2, cols);
            vstd::arithmetic::div_mod::lemma_div_pos_is_pos(k2, cols);
            assert(cols * rows == rows * cols) by (nonlinear_arith);
            vstd::arithmetic::div_mod::lemma_multiply_divide_lt(k1, cols, rows);
            vstd::arithmetic::div_mod::lemma_multiply_divide_lt(k2, cols, rows);
            if j1 < j2 {
                lemma_seg_unique(parent.x0 as int, w, cols, x, j1, j2);
            } else if j2 < j1 {
                lemma_seg_unique(parent.x0 as int, w, cols, x, j2, j1);
            } else if i1 < i2 {
                lemma_seg_unique(parent.y0 as int, h, rows, y, i1, i2);
            } else if i2 < i1 {
                lemma_seg_unique(parent.y0 as int, h, rows, y, i2, i1);
            } else {
                assert(k1 == cols * i1 + j1 && k2 == cols * i2 + j2);
                assert(false);
            }
        }
    }
}

/// Every cell of an even split lies within its parent rectangle, cell
/// counts and row-major order included: the direct corollary of the
/// cell-edge structure, stated over the rectangle fields themselves.
pub proof fn lemma_split_cells_within_parent(
    parent: PixelRect,
    rows: int,
    cols: int,
    cells: Seq<PixelRect>,
)
    requires
        parent.wf(),
        1 <= rows,
        1 <= cols,
        cells.len() == rows * cols,
        forall|k: int|
            0 <= k < cells.len() ==> is_split_cell(#[trigger] cells[k], parent, rows, cols, k),
    ensures
        forall|k: int|
            0 <= k < cells.len() ==> parent.x0 <= (#[trigger] cells[k]).x0 <= cells[k].x1
                <= parent.x1 && parent.y0 <= cells[k].y0 <= cells[k].y1 <= parent.y1,
{
    let w = parent.x1 - parent.x0;
    let h = parent.y1 - parent.y0;
    assert forall|k: int| 0 <= k < cells.len() implies parent.x0 <= (#[trigger] cells[k]).x0
        <= cells[k].x1 <= parent.x1 && parent.y0 <= cells[k].y0 <= cells[k].y1 <= parent.y1 by {
        let i = k / cols;
        let j = k % cols;
        vstd::arithmetic::div_mod::lemma_fundamental_div_mod(k, cols);
        vstd::arithmetic::div_mod::lemma_mod_division_less_than_divisor(k, cols);
        vstd::arithmetic::div_mod::lemma_div_pos_is_pos(k, cols);
        assert(cols * rows == rows * cols) by (nonlinear_arith);
        vstd::arithmetic::div_mod::lemma_multiply_divide_lt(k, cols, rows);
        assert(0 <= i < rows && 0 <= j < cols);
        lemma_seg_edge_ordered(parent.x0 as int, w, cols, 0, j);
        lemma_seg_edge_ordered(parent.x0 as int, w, cols, j, j + 1);
        lemma_seg_edge_ordered(parent.x0 as int, w, cols, j + 1, cols);
        lemma_seg_edge_ordered(parent.y0 as int, h, rows, 0, i);
        lemma_seg_edge_ordered(parent.y0 as int, h, rows, i, i + 1);
        lemma_seg_edge_ordered(parent.y0 as int, h, rows, i + 1, rows);
        assert(0 * (w / cols) == 0 && 0 * (h / rows) == 0) by (nonlinear_arith);
    }
}

} // verus!
