//! The chart façade: a drawing area with reserved label margins, an
//! attached 2-D coordinate spec built from logical ranges, and typed
//! series helpers (line, point, histogram, candlestick) plus mesh
//! gridlines with numeric tick labels.
use vstd::prelude::*;

verus! {

use crate::area::{margin_rect, DrawingArea};
use crate::axes::{axis_build_outcome, AxisRange, AxisSpec, AxisValue};
use crate::backend::{DrawError, DrawingBackend};
use crate::coord::{CoordError, LinearSpec, COORD_LIMIT};
use crate::element::{resolve_spec, DrawCommand, Element};
use crate::rounding::{lemma_round_div_exact, lemma_round_div_mono, round_div, round_div_i128};
use crate::style::{ShapeStyle, TextStyle};

/// The decimal digits of a non-negative number, most significant
/// first, as ASCII bytes.
pub open spec fn dec_repr(n: int) -> Seq<u8>
    recommends
        n >= 0,
    decreases n,
{
    if n < 10 {
        seq![(48 + n) as u8]
    } else {
        dec_repr(n / 10).push((48 + n % 10) as u8)
    }
}

/// The default numeric label text: a minus sign for negatives, then
/// the decimal digits.
pub open spec fn label_of(v: int) -> Seq<u8> {
    if v < 0 {
        seq![45u8] + dec_repr(-v)
    } else {
        dec_repr(v)
    }
}

/// Appends the decimal digits of `n`.
fn push_decimal(n: u32, out: &mut Vec<u8>)
    ensures
        final(out)@ == old(out)@ + dec_repr(n as int),
    decreases n,
{
    if n < 10 {
        out.push(48 + n as u8);
        proof {
            assert(out@ =~= old(out)@ + dec_repr(n as int));
        }
    } else {
        proof {
            vstd::arithmetic::div_mod::lemma_div_is_strictly_smaller(n as int, 10);
        }
        push_decimal(n / 10, out);
        out.push(48 + (n % 10) as u8);
        proof {
            assert(out@ =~= old(out)@ + dec_repr(n as int));
        }
    }
}

/// The default numeric-to-text conversion for tick labels.
pub fn format_label(v: i32) -> (r: Vec<u8>)
    ensures
        r@ == label_of(v as int),
{
    let mut out: Vec<u8> = Vec::new();
    if v < 0 {
        out.push(45);
        let m: i64 = -(v as i64);
        push_decimal(m as u32, &mut out);
        proof {
            assert(out@ =~= label_of(v as int));
        }
    } else {
        push_decimal(v as u32, &mut out);
    }
    out
}

/// The `k`-th of `n` evenly spaced tick values over `[min, max]`.
pub open spec fn tick_value(min: int, max: int, n: int, k: int) -> int {
    min + round_div(k * (max - min), n - 1)
}

/// `n` evenly spaced tick values over `[min, max]`: the first exactly
/// at `min`, the last exactly at `max`, nondecreasing in between.
pub fn compute_ticks(min: i32, max: i32, n: usize) -> (r: Vec<i32>)
    requires
        -COORD_LIMIT <= min < max,
        max <= COORD_LIMIT,
        2 <= n <= 0x1000,
    ensures
        r@.len() == n,
        forall|k: int| 0 <= k < n ==> r@[k] == tick_value(min as int, max as int, n as int, k),
        r@[0] == min,
        r@[n - 1] == max,
{
    let d: i64 = max as i64 - min as i64;
    let mut r: Vec<i32> = Vec::new();
    let mut k: usize = 0;
    while k < n
        invariant
            -COORD_LIMIT <= min < max <= COORD_LIMIT,
            2 <= n <= 0x1000,
            d == max - min,
            k <= n,
            r@.len() == k,
            forall|t: int| 0 <= t < k ==> r@[t] == tick_value(min as int, max as int, n as int, t),
        decreases n - k,
    {
        proof {
            assert(0 <= (k as int) * (d as int) <= 0x1000 * 0x1_0000_0000) by (nonlinear_arith)
                requires
                    0 <= k as int <= 0x1000 && 0 < d as int <= 0x1_0000_0000,
            ;
            vstd::arithmetic::mul::lemma_mul_inequality(k as int, n as int - 1, d as int);
            lemma_round_div_mono((k as int) * (d as int), (n as int - 1) * (d as int), n as int - 1);
            lemma_round_div_exact(d as int, n as int - 1);
            assert((n as int - 1) * (d as int) == (d as int) * (n as int - 1)) by (nonlinear_arith);
            crate::rounding::lemma_round_div_bounds((k as int) * (d as int), n as int - 1);
        }
        let num: i128 = (k as i128) * (d as i128);
        let q: i128 = round_div_i128(num, (n as i128) - 1);
        let v: i64 = (min as i64) + (q as i64);
        r.push(v as i32);
        k += 1;
    }
    proof {
        assert(0 * (max - min) == 0) by (nonlinear_arith);
        lemma_round_div_exact(0, n as int - 1);
        assert((n as int - 1) * (max - min) == (max - min) * (n as int - 1)) by (nonlinear_arith);
        lemma_round_div_exact(max - min, n as int - 1);
    }
    r
}

/// Builds a chart context: reserved label areas, an optional caption,
/// and the logical ranges to attach.
#[derive(Debug)]
pub struct ChartBuilder {
    pub area: DrawingArea,
    pub x_label_area: u32,
    pub y_label_area: u32,
    pub caption: Option<Vec<u8>>,
    pub caption_height: u32,
}

/// A drawing area shrunk by the reserved margins, with a 2-D
/// coordinate spec spanning the remaining rectangle.
#[derive(Debug)]
pub struct ChartContext {
    pub plot: DrawingArea,
    pub caption: Option<Vec<u8>>,
    pub caption_pos: (i32, i32),
}

impl ChartBuilder {
    /// Starts a builder over an area, with no reserved label areas and
    /// no caption.
    pub fn on(area: DrawingArea) -> (b: ChartBuilder)
        ensures
            b.area == area,
            b.x_label_area == 0,
            b.y_label_area == 0,
            b.caption matches Option::<Vec<u8>>::None,
            b.caption_height == 0,
    {
        ChartBuilder { area, x_label_area: 0, y_label_area: 0, caption: None, caption_height: 0 }
    }

    /// Reserves pixels below the plot for X axis labels.
    pub fn x_label_area_size(self, size: u32) -> (b: ChartBuilder)
        ensures
            b == (ChartBuilder { x_label_area: size, ..self }),
    {
        ChartBuilder { x_label_area: size, ..self }
    }

    /// Reserves pixels left of the plot for Y axis labels.
    pub fn y_label_area_size(self, size: u32) -> (b: ChartBuilder)
        ensures
            b == (ChartBuilder { y_label_area: size, ..self }),
    {
        ChartBuilder { y_label_area: size, ..self }
    }

    /// Sets the caption text and the pixel height reserved for it at
    /// the top of the chart.
    pub fn caption(self, text: Vec<u8>, height: u32) -> (b: ChartBuilder)
        ensures
            b == (ChartBuilder { caption: Some(text), caption_height: height, ..self }),
    {
        ChartBuilder { caption: Some(text), caption_height: height, ..self }
    }

    /// Attaches the two logical ranges and produces the chart context:
    /// the plot area is the original area shrunk by the caption strip
    /// and the reserved label areas, and the 2-D spec spans the
    /// remaining rectangle (X left-to-right, Y bottom-to-top).
    pub fn build_ranged(self, x: AxisRange, y: AxisRange) -> (r: Result<ChartContext, CoordError>)
        requires
            self.area.wf(),
            x matches AxisRange::Discrete { labels } ==> labels@.len() <= 0x10_0000,
            y matches AxisRange::Discrete { labels } ==> labels@.len() <= 0x10_0000,
            x matches AxisRange::Linear { min, max } ==> -COORD_LIMIT <= min <= COORD_LIMIT
                && -COORD_LIMIT <= max <= COORD_LIMIT,
            y matches AxisRange::Linear { min, max } ==> -COORD_LIMIT <= min <= COORD_LIMIT
                && -COORD_LIMIT <= max <= COORD_LIMIT,
        ensures
            r matches Ok(cc) ==> cc.plot.rect == margin_rect(
                self.area.rect,
                self.caption_height as int,
                self.x_label_area as int,
                self.y_label_area as int,
                0,
            ) && cc.plot.wf() && axis_build_outcome(
                x,
                cc.plot.rect.x0,
                cc.plot.rect.x1,
                Ok(cc.plot.axes.x),
            ) && axis_build_outcome(y, cc.plot.rect.y1, cc.plot.rect.y0, Ok(cc.plot.axes.y))
                && cc.caption == self.caption && cc.caption_pos == (self.area.rect.x0, self.area.rect.y0),
            r matches Err(_) ==> !(exists|a: AxisSpec| axis_build_outcome(
                x,
                margin_rect(
                    self.area.rect,
                    self.caption_height as int,
                    self.x_label_area as int,
                    self.y_label_area as int,
                    0,
                ).x0,
                margin_rect(
                    self.area.rect,
                    self.caption_height as int,
                    self.x_label_area as int,
                    self.y_label_area as int,
                    0,
                ).x1,
                Ok(a),
            )) || !(exists|a: AxisSpec| axis_build_outcome(
                y,
                margin_rect(
                    self.area.rect,
                    self.caption_height as int,
                    self.x_label_area as int,
                    self.y_label_area as int,
                    0,
                ).y1,
                margin_rect(
                    self.area.rect,
                    self.caption_height as int,
                    self.x_label_area as int,
                    self.y_label_area as int,
                    0,
                ).y0,
                Ok(a),
            )),
    {
        let caption_x = self.area.rect.x0;
        let caption_y = self.area.rect.y0;
        let inner = self.area.margin(
            self.caption_height,
            self.x_label_area,
            self.y_label_area,
            0,
        );
        match inner.apply_coord_spec(x, y) {
            Ok(plot) => Ok(
                ChartContext { plot, caption: self.caption, caption_pos: (caption_x, caption_y) },
            ),
            Err(e) => {
                proof {
                    lemma_axis_outcome_err_unique(
                        x,
                        inner.rect.x0,
                        inner.rect.x1,
                        y,
                        inner.rect.y1,
                        inner.rect.y0,
                        e,
                    );
                }
                Err(e)
            },
        }
    }
}

/// If building either axis failed, no successful outcome exists for
/// that axis and pixel span.
proof fn lemma_axis_outcome_err_unique(
    x: AxisRange,
    xlo: i32,
    xhi: i32,
    y: AxisRange,
    ylo: i32,
    yhi: i32,
    e: CoordError,
)
    requires
        axis_build_outcome(x, xlo, xhi, Err(e)) || axis_build_outcome(y, ylo, yhi, Err(e)),
    ensures
        !(exists|a: AxisSpec| axis_build_outcome(x, xlo, xhi, Ok(a))) || !(exists|a: AxisSpec|
        axis_build_outcome(y, ylo, yhi, Ok(a))),
{
}

impl ChartContext {
    /// The caption as a text element in outer pixel space, when a
    /// caption was set.
    pub fn caption_element(&self, style: &TextStyle) -> (r: Option<Element>)
        ensures
            self.caption matches Some(t) ==> (r matches Some(e) && (e matches Element::Text {
                text,
                at,
                style: st,
            } && text@ == t@ && at == (
                AxisValue::Num(self.caption_pos.0),
                AxisValue::Num(self.caption_pos.1),
            ) && crate::element::text_style_eq(st, *style))),
            self.caption matches Option::<Vec<u8>>::None ==> r matches Option::<Element>::None,
    {
        match &self.caption {
            Some(t) => Some(
                Element::Text {
                    text: crate::bytes::clone_bytes(t),
                    at: (
                        AxisValue::Num(self.caption_pos.0),
                        AxisValue::Num(self.caption_pos.1),
                    ),
                    style: style.clone(),
                },
            ),
            None => None,
        }
    }

    /// Draws each element of a series in order through the plot area's
    /// spec; the first failure aborts the remaining draws and is
    /// propagated, and what was drawn before it stays on the surface.
    /// An empty series always succeeds, and a coordinate error comes
    /// back only from an element of the series that does not resolve.
    pub fn draw_series<B: DrawingBackend>(&self, elems: &Vec<Element>, backend: &mut B) -> (r:
        Result<(), DrawError<B::ErrorType>>)
        requires
            self.plot.wf(),
            forall|i: int| 0 <= i < elems@.len() ==> (#[trigger] elems@[i]).wf(),
        ensures
            elems@.len() == 0 ==> r matches Ok(_),
            r matches Err(DrawError::Coord(ce)) ==> exists|i: int|
                0 <= i < elems@.len() && resolve_spec(
                    self.plot.axes,
                    #[trigger] elems@[i],
                    Err::<Vec<DrawCommand>, CoordError>(ce),
                ),
    {
        let mut i: usize = 0;
        while i < elems.len()
            invariant
                self.plot.wf(),
                forall|t: int| 0 <= t < elems@.len() ==> (#[trigger] elems@[t]).wf(),
                i <= elems@.len(),
            decreases elems@.len() - i,
        {
            match self.plot.draw(&elems[i], backend) {
                Ok(()) => {},
                Err(e) => {
                    proof {
                        if e is Coord {
                            assert(resolve_spec(
                                self.plot.axes,
                                elems@[i as int],
                                Err::<Vec<DrawCommand>, CoordError>(e->Coord_0),
                            ));
                        }
                    }
                    return Err(e);
                },
            }
            i += 1;
        }
        Ok(())
    }

    /// The mesh of a chart whose two axes are linear: for each of
    /// `xn` X ticks a vertical gridline followed by its numeric label,
    /// then the same for `yn` Y ticks.  Axes that are not linear have
    /// no numeric tick values and are refused.
    pub fn mesh_elements(&self, xn: usize, yn: usize, line_style: ShapeStyle, label_style: &TextStyle) -> (r: Result<Vec<Element>, CoordError>)
        requires
            self.plot.wf(),
            2 <= xn <= 0x1000,
            2 <= yn <= 0x1000,
        ensures
            r matches Ok(es) ==> (self.plot.axes.x matches AxisSpec::Linear(sx)
                && self.plot.axes.y matches AxisSpec::Linear(sy) && es@.len() == 2 * (xn + yn)
                && (forall|k: int|
                0 <= k < xn ==> mesh_x_line(#[trigger] es@[2 * k], sx, sy, xn as int, k, line_style))
                && (forall|k: int|
                0 <= k < xn ==> mesh_x_label(
                    #[trigger] es@[2 * k + 1],
                    sx,
                    sy,
                    xn as int,
                    k,
                    *label_style,
                )) && (forall|k: int|
                0 <= k < yn ==> mesh_y_line(
                    #[trigger] es@[2 * xn + 2 * k],
                    sx,
                    sy,
                    yn as int,
                    k,
                    line_style,
                )) && (forall|k: int|
                0 <= k < yn ==> mesh_y_label(
                    #[trigger] es@[2 * xn + 2 * k + 1],
                    sx,
                    sy,
                    yn as int,
                    k,
                    *label_style,
                ))),
            r matches Err(e) ==> e == CoordError::ValueKindMismatch && !(self.plot.axes.x
                matches AxisSpec::Linear(_) && self.plot.axes.y matches AxisSpec::Linear(_)),
    {
        let sx: LinearSpec = match &self.plot.axes.x {
            AxisSpec::Linear(s) => *s,
            _ => {
                return Err(CoordError::ValueKindMismatch);
            },
        };
        let sy: LinearSpec = match &self.plot.axes.y {
            AxisSpec::Linear(s) => *s,
            _ => {
                return Err(CoordError::ValueKindMismatch);
            },
        };
        let xt = compute_ticks(sx.min, sx.max, xn);
        let yt = compute_ticks(sy.min, sy.max, yn);
        let mut out: Vec<Element> = Vec::new();
        let mut k: usize = 0;
        while k < xn
            invariant
                self.plot.axes.x == AxisSpec::Linear(sx),
                self.plot.axes.y == AxisSpec::Linear(sy),
                sx.wf(),
                sy.wf(),
                2 <= xn <= 0x1000,
                xt@.len() == xn,
                forall|t: int|
                    0 <= t < xn ==> xt@[t] == tick_value(sx.min as int, sx.max as int, xn as int, t),
                k <= xn,
                out@.len() == 2 * k,
                forall|t: int|
                    0 <= t < k ==> mesh_x_line(#[trigger] out@[2 * t], sx, sy, xn as int, t, line_style),
                forall|t: int|
                    0 <= t < k ==> mesh_x_label(
                        #[trigger] out@[2 * t + 1],
                        sx,
                        sy,
                        xn as int,
                        t,
                        *label_style,
                    ),
            decreases xn - k,
        {
            let v = xt[k];
            out.push(
                Element::Line {
                    from: (AxisValue::Num(v), AxisValue::Num(sy.min)),
                    to: (AxisValue::Num(v), AxisValue::Num(sy.max)),
                    style: line_style,
                },
            );
            out.push(
                Element::Text {
                    text: format_label(v),
                    at: (AxisValue::Num(v), AxisValue::Num(sy.min)),
                    style: label_style.clone(),
                },
            );
            k += 1;
        }
        let mut k2: usize = 0;
        while k2 < yn
            invariant
                self.plot.axes.x == AxisSpec::Linear(sx),
                self.plot.axes.y == AxisSpec::Linear(sy),
                sx.wf(),
                sy.wf(),
                2 <= xn <= 0x1000,
                2 <= yn <= 0x1000,
                yt@.len() == yn,
                forall|t: int|
                    0 <= t < yn ==> yt@[t] == tick_value(sy.min as int, sy.max as int, yn as int, t),
                k2 <= yn,
                out@.len() == 2 * xn + 2 * k2,
                forall|t: int|
                    0 <= t < xn ==> mesh_x_line(#[trigger] out@[2 * t], sx, sy, xn as int, t, line_style),
                forall|t: int|
                    0 <= t < xn ==> mesh_x_label(
                        #[trigger] out@[2 * t + 1],
                        sx,
                        sy,
                        xn as int,
                        t,
                        *label_style,
                    ),
                forall|t: int|
                    0 <= t < k2 ==> mesh_y_line(
                        #[trigger] out@[2 * xn + 2 * t],
                        sx,
                        sy,
                        yn as int,
                        t,
                        line_style,
                    ),
                forall|t: int|
                    0 <= t < k2 ==> mesh_y_label(
                        #[trigger] out@[2 * xn + 2 * t + 1],
                        sx,
                        sy,
                        yn as int,
                        t,
                        *label_style,
                    ),
            decreases yn - k2,
        {
            let v = yt[k2];
            out.push(
                Element::Line {
                    from: (AxisValue::Num(sx.min), AxisValue::Num(v)),
                    to: (AxisValue::Num(sx.max), AxisValue::Num(v)),
                    style: line_style,
                },
            );
            out.push(
                Element::Text {
                    text: format_label(v),
                    at: (AxisValue::Num(sx.min), AxisValue::Num(v)),
                    style: label_style.clone(),
                },
            );
            k2 += 1;
        }
        Ok(out)
    }
}

/// The vertical gridline of the `k`-th X tick.
pub open spec fn mesh_x_line(e: Element, sx: LinearSpec, sy: LinearSpec, n: int, k: int, style: ShapeStyle) -> bool {
    let v = tick_value(sx.min as int, sx.max as int, n, k);
    e matches Element::Line { from, to, style: st } && from == (
        AxisValue::Num(v as i32),
        AxisValue::Num(sy.min),
    ) && to == (AxisValue::Num(v as i32), AxisValue::Num(sy.max)) && st == style
}

/// The numeric label of the `k`-th X tick, anchored at the tick on the
/// Y axis minimum.
pub open spec fn mesh_x_label(e: Element, sx: LinearSpec, sy: LinearSpec, n: int, k: int, style: TextStyle) -> bool {
    let v = tick_value(sx.min as int, sx.max as int, n, k);
    e matches Element::Text { text, at, style: st } && text@ == label_of(v) && at == (
        AxisValue::Num(v as i32),
        AxisValue::Num(sy.min),
    ) && crate::element::text_style_eq(st, style)
}

/// The horizontal gridline of the `k`-th Y tick.
pub open spec fn mesh_y_line(e: Element, sx: LinearSpec, sy: LinearSpec, n: int, k: int, style: ShapeStyle) -> bool {
    let v = tick_value(sy.min as int, sy.max as int, n, k);
    e matches Element::Line { from, to, style: st } && from == (
        AxisValue::Num(sx.min),
        AxisValue::Num(v as i32),
    ) && to == (AxisValue::Num(sx.max), AxisValue::Num(v as i32)) && st == style
}

/// The numeric label of the `k`-th Y tick, anchored at the tick on the
/// X axis minimum.
pub open spec fn mesh_y_label(e: Element, sx: LinearSpec, sy: LinearSpec, n: int, k: int, style: TextStyle) -> bool {
    let v = tick_value(sy.min as int, sy.max as int, n, k);
    e matches Element::Text { text, at, style: st } && text@ == label_of(v) && at == (
        AxisValue::Num(sx.min),
        AxisValue::Num(v as i32),
    ) && crate::element::text_style_eq(st, style)
}

/// A line series: one polyline through the data points, drawn in the
/// given style.
pub fn line_series(points: Vec<(AxisValue, AxisValue)>, style: ShapeStyle) -> (e: Element)
    ensures
        e == (Element::Path { points, style }),
        e.wf(),
{
    Element::Path { points, style }
}

/// A point series: one circle of the given radius per data point, in
/// input order.
pub fn point_series(points: Vec<(AxisValue, AxisValue)>, radius: u32, style: ShapeStyle) -> (r:
    Vec<Element>)
    ensures
        r@.len() == points@.len(),
        forall|i: int|
            0 <= i < points@.len() ==> #[trigger] r@[i] == (Element::Circle {
                center: points@[i],
                radius,
                style,
            }),
{
    let ghost orig = points@;
    let mut rest = points;
    let mut r: Vec<Element> = Vec::new();
    while rest.len() > 0
        invariant
            r@.len() + rest@.len() == orig.len(),
            rest@ == orig.skip(r@.len() as int),
            forall|i: int|
                0 <= i < r@.len() ==> #[trigger] r@[i] == (Element::Circle {
                    center: orig[i],
                    radius,
                    style,
                }),
        decreases rest@.len(),
    {
        let p = rest.remove(0);
        proof {
            assert(orig.skip(r@.len() as int)[0] == orig[r@.len() as int]);
            assert(rest@ =~= orig.skip(r@.len() + 1int));
        }
        r.push(Element::Circle { center: p, radius, style });
    }
    r
}

/// A histogram series: one bar per `(x, y)` value, spanning one
/// logical unit in X from `x`, from the baseline to `y`.
pub fn histogram_series(values: &Vec<(i32, i32)>, baseline: i32, style: ShapeStyle) -> (r: Vec<
    Element>)
    requires
        forall|i: int| 0 <= i < values@.len() ==> (#[trigger] values@[i]).0 < 0x7FFF_FFFF,
    ensures
        r@.len() == values@.len(),
        forall|i: int|
            0 <= i < values@.len() ==> #[trigger] r@[i] == (Element::Rect {
                corner0: (
                    AxisValue::Num(values@[i].0),
                    AxisValue::Num(baseline),
                ),
                corner1: (
                    AxisValue::Num((values@[i].0 + 1) as i32),
                    AxisValue::Num(values@[i].1),
                ),
                style,
            }),
{
    let mut r: Vec<Element> = Vec::new();
    let mut i: usize = 0;
    while i < values.len()
        invariant
            forall|t: int| 0 <= t < values@.len() ==> (#[trigger] values@[t]).0 < 0x7FFF_FFFF,
            i <= values@.len(),
            r@.len() == i,
            forall|t: int|
                0 <= t < i ==> #[trigger] r@[t] == (Element::Rect {
                    corner0: (
                        AxisValue::Num(values@[t].0),
                        AxisValue::Num(baseline),
                    ),
                    corner1: (
                        AxisValue::Num((values@[t].0 + 1) as i32),
                        AxisValue::Num(values@[t].1),
                    ),
                    style,
                }),
        decreases values@.len() - i,
    {
        let (x, y) = values[i];
        r.push(
            Element::Rect {
                corner0: (AxisValue::Num(x), AxisValue::Num(baseline)),
                corner1: (AxisValue::Num(x + 1), AxisValue::Num(y)),
                style,
            },
        );
        i += 1;
    }
    r
}

/// A candlestick series: per `(x, open, high, low, close)` entry a
/// high-low wick line followed by an open-close body rectangle of the
/// given half-width.
pub fn candlestick_series(
    entries: &Vec<(i32, i32, i32, i32, i32)>,
    half_width: i32,
    style: ShapeStyle,
) -> (r: Vec<Element>)
    requires
        0 <= half_width <= 0x1000,
        forall|i: int|
            0 <= i < entries@.len() ==> -0x4000_0000 <= (#[trigger] entries@[i]).0 <= 0x4000_0000,
    ensures
        r@.len() == 2 * entries@.len(),
        forall|i: int|
            0 <= i < entries@.len() ==> #[trigger] r@[2 * i] == (Element::Line {
                from: (
                    AxisValue::Num(entries@[i].0),
                    AxisValue::Num(entries@[i].2),
                ),
                to: (
                    AxisValue::Num(entries@[i].0),
                    AxisValue::Num(entries@[i].3),
                ),
                style,
            }),
        forall|i: int|
            0 <= i < entries@.len() ==> #[trigger] r@[2 * i + 1] == (Element::Rect {
                corner0: (
                    AxisValue::Num((entries@[i].0 - half_width) as i32),
                    AxisValue::Num(entries@[i].1),
                ),
                corner1: (
                    AxisValue::Num((entries@[i].0 + half_width) as i32),
                    AxisValue::Num(entries@[i].4),
                ),
                style,
            }),
{
    let mut r: Vec<Element> = Vec::new();
    let mut i: usize = 0;
    while i < entries.len()
        invariant
            0 <= half_width <= 0x1000,
            forall|t: int|
                0 <= t < entries@.len() ==> -0x4000_0000 <= (#[trigger] entries@[t]).0
                    <= 0x4000_0000,
            i <= entries@.len(),
            r@.len() == 2 * i,
            forall|t: int|
                0 <= t < i ==> #[trigger] r@[2 * t] == (Element::Line {
                    from: (
                        AxisValue::Num(entries@[t].0),
                        AxisValue::Num(entries@[t].2),
                    ),
                    to: (
                        AxisValue::Num(entries@[t].0),
                        AxisValue::Num(entries@[t].3),
                    ),
                    style,
                }),
            forall|t: int|
                0 <= t < i ==> #[trigger] r@[2 * t + 1] == (Element::Rect {
                    corner0: (
                        AxisValue::Num((entries@[t].0 - half_width) as i32),
                        AxisValue::Num(entries@[t].1),
                    ),
                    corner1: (
                        AxisValue::Num((entries@[t].0 + half_width) as i32),
                        AxisValue::Num(entries@[t].4),
                    ),
                    style,
                }),
        decreases entries@.len() - i,
    {
        let (x, open, high, low, close) = entries[i];
        r.push(
            Element::Line {
                from: (AxisValue::Num(x), AxisValue::Num(high)),
                to: (AxisValue::Num(x), AxisValue::Num(low)),
                style,
            },
        );
        r.push(
            Element::Rect {
                corner0: (AxisValue::Num(x - half_width), AxisValue::Num(open)),
                corner1: (AxisValue::Num(x + half_width), AxisValue::Num(close)),
                style,
            },
        );
        i += 1;
    }
    r
}

} // verus!
