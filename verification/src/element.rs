//! Drawing elements and their resolution into pixel commands.
//!
//! A plain element carries logical coordinates and resolves each of
//! them through a 2-D coordinate spec.  A composed element carries one
//! logical anchor plus an ordered list of local primitives, each
//! expressed as pixel offsets from the anchor: the anchor alone crosses
//! the logical-to-pixel boundary, and the offsets are pure pixel
//! arithmetic, which is what makes composed elements reusable under any
//! outer coordinate system.
use vstd::prelude::*;

verus! {

use crate::axes::{coord2_map_at, AxisValue, Coord2};
use crate::coord::CoordError;
use crate::style::{ShapeStyle, TextStyle};

/// Magnitude bound on local pixel offsets inside a composed element;
/// it keeps anchor-plus-offset sums inside an `i64`.
pub const OFFSET_LIMIT: i64 = 0x1000_0000_0000_0000;

/// Why an element could not be built.
#[derive(Clone, Copy, PartialEq, Eq, Structural, Debug)]
pub enum LayoutError {
    /// A local offset lies beyond `OFFSET_LIMIT`.
    OffsetTooLarge,
}

/// One already-resolved drawing primitive, in backend pixel space.
#[derive(Clone, PartialEq, Debug)]
pub enum DrawCommand {
    Pixel { x: i64, y: i64, style: ShapeStyle },
    Line { x0: i64, y0: i64, x1: i64, y1: i64, style: ShapeStyle },
    Rect { x0: i64, y0: i64, x1: i64, y1: i64, style: ShapeStyle },
    Path { points: Vec<(i64, i64)>, style: ShapeStyle },
    Circle { x: i64, y: i64, radius: u32, style: ShapeStyle },
    Text { text: Vec<u8>, x: i64, y: i64, style: TextStyle },
}

/// A drawable primitive in the local pixel frame of a composed element:
/// every coordinate is an offset from the anchor.
#[derive(Clone, PartialEq, Debug)]
pub enum LocalPrimitive {
    Pixel { dx: i64, dy: i64, style: ShapeStyle },
    Line { dx0: i64, dy0: i64, dx1: i64, dy1: i64, style: ShapeStyle },
    Rect { dx0: i64, dy0: i64, dx1: i64, dy1: i64, style: ShapeStyle },
    Path { offsets: Vec<(i64, i64)>, style: ShapeStyle },
    Circle { dx: i64, dy: i64, radius: u32, style: ShapeStyle },
    Text { text: Vec<u8>, dx: i64, dy: i64, style: TextStyle },
}

/// Two text styles agree on everything the backend reads.
pub open spec fn text_style_eq(a: TextStyle, b: TextStyle) -> bool {
    a.font.name@ == b.font.name@ && a.font.size == b.font.size && a.color == b.color
}

/// Whether every offset of a local primitive is within `OFFSET_LIMIT`.
pub open spec fn prim_offsets_ok(p: LocalPrimitive) -> bool {
    match p {
        LocalPrimitive::Pixel { dx, dy, .. } => -OFFSET_LIMIT <= dx <= OFFSET_LIMIT
            && -OFFSET_LIMIT <= dy <= OFFSET_LIMIT,
        LocalPrimitive::Line { dx0, dy0, dx1, dy1, .. } => -OFFSET_LIMIT <= dx0 <= OFFSET_LIMIT
            && -OFFSET_LIMIT <= dy0 <= OFFSET_LIMIT && -OFFSET_LIMIT <= dx1 <= OFFSET_LIMIT
            && -OFFSET_LIMIT <= dy1 <= OFFSET_LIMIT,
        LocalPrimitive::Rect { dx0, dy0, dx1, dy1, .. } => -OFFSET_LIMIT <= dx0 <= OFFSET_LIMIT
            && -OFFSET_LIMIT <= dy0 <= OFFSET_LIMIT && -OFFSET_LIMIT <= dx1 <= OFFSET_LIMIT
            && -OFFSET_LIMIT <= dy1 <= OFFSET_LIMIT,
        LocalPrimitive::Path { offsets, .. } => forall|i: int|
            0 <= i < offsets@.len() ==> -OFFSET_LIMIT <= #[trigger] offsets@[i].0 <= OFFSET_LIMIT
                && -OFFSET_LIMIT <= offsets@[i].1 <= OFFSET_LIMIT,
        LocalPrimitive::Circle { dx, dy, .. } => -OFFSET_LIMIT <= dx <= OFFSET_LIMIT
            && -OFFSET_LIMIT <= dy <= OFFSET_LIMIT,
        LocalPrimitive::Text { dx, dy, .. } => -OFFSET_LIMIT <= dx <= OFFSET_LIMIT
            && -OFFSET_LIMIT <= dy <= OFFSET_LIMIT,
    }
}

/// The command a local primitive resolves to when its anchor lands at
/// pixel `(ox, oy)`: pure pixel translation, no coordinate spec.
pub open spec fn prim_resolves_to(p: LocalPrimitive, ox: int, oy: int, c: DrawCommand) -> bool {
    match p {
        LocalPrimitive::Pixel { dx, dy, style } => (c matches DrawCommand::Pixel {
            x,
            y,
            style: cs,
        } && x == ox + dx && y == oy + dy && cs == style),
        LocalPrimitive::Line { dx0, dy0, dx1, dy1, style } => (c matches DrawCommand::Line {
            x0,
            y0,
            x1,
            y1,
            style: cs,
        } && x0 == ox + dx0 && y0 == oy + dy0 && x1 == ox + dx1 && y1 == oy + dy1 && cs == style),
        LocalPrimitive::Rect { dx0, dy0, dx1, dy1, style } => (c matches DrawCommand::Rect {
            x0,
            y0,
            x1,
            y1,
            style: cs,
        } && x0 == ox + dx0 && y0 == oy + dy0 && x1 == ox + dx1 && y1 == oy + dy1 && cs == style),
        LocalPrimitive::Path { offsets, style } => (c matches DrawCommand::Path {
            points,
            style: cs,
        } && points@.len() == offsets@.len() && (forall|i: int|
            0 <= i < offsets@.len() ==> #[trigger] points@[i].0 == ox + offsets@[i].0
                && points@[i].1 == oy + offsets@[i].1) && cs == style),
        LocalPrimitive::Circle { dx, dy, radius, style } => (c matches DrawCommand::Circle {
            x,
            y,
            radius: cr,
            style: cs,
        } && x == ox + dx && y == oy + dy && cr == radius && cs == style),
        LocalPrimitive::Text { text, dx, dy, style } => (c matches DrawCommand::Text {
            text: ct,
            x,
            y,
            style: cs,
        } && ct@ == text@ && x == ox + dx && y == oy + dy && text_style_eq(cs, style)),
    }
}

/// A composed element: one logical anchor and an ordered list of local
/// primitives drawn relative to it, later entries over earlier ones.
#[derive(Debug)]
pub struct ComposedElement {
    pub anchor: (AxisValue, AxisValue),
    pub parts: Vec<LocalPrimitive>,
}

impl ComposedElement {
    /// Every part's offsets are in range.
    pub open spec fn wf(&self) -> bool {
        forall|i: int| 0 <= i < self.parts@.len() ==> prim_offsets_ok(#[trigger] self.parts@[i])
    }

    /// The empty element at a logical anchor: the starting point of
    /// every composition.
    pub fn at(anchor: (AxisValue, AxisValue)) -> (r: ComposedElement)
        ensures
            r.anchor == anchor,
            r.parts@.len() == 0,
            r.wf(),
    {
        ComposedElement { anchor, parts: Vec::new() }
    }

    /// Appends one local primitive; later children draw over earlier
    /// ones.  A primitive with an offset beyond `OFFSET_LIMIT` is
    /// refused and the element is handed back unchanged.
    pub fn with_child(self, p: LocalPrimitive) -> (r: Result<ComposedElement, (
        ComposedElement,
        LayoutError,
    )>)
        requires
            self.wf(),
        ensures
            prim_offsets_ok(p) ==> (r matches Ok(n) && n.anchor == self.anchor && n.parts@
                == self.parts@.push(p) && n.wf()),
            !prim_offsets_ok(p) ==> (r matches Err(n) && n.0.anchor == self.anchor && n.0.parts@
                == self.parts@ && n.1 == LayoutError::OffsetTooLarge),
    {
        if !prim_offsets_within(&p) {
            return Err((self, LayoutError::OffsetTooLarge));
        }
        let ComposedElement { anchor, mut parts } = self;
        parts.push(p);
        Ok(ComposedElement { anchor, parts })
    }
}

/// Runtime check of `prim_offsets_ok`.
fn prim_offsets_within(p: &LocalPrimitive) -> (r: bool)
    ensures
        r == prim_offsets_ok(*p),
{
    match p {
        LocalPrimitive::Pixel { dx, dy, .. } => -OFFSET_LIMIT <= *dx && *dx <= OFFSET_LIMIT
            && -OFFSET_LIMIT <= *dy && *dy <= OFFSET_LIMIT,
        LocalPrimitive::Line { dx0, dy0, dx1, dy1, .. } => -OFFSET_LIMIT <= *dx0 && *dx0
            <= OFFSET_LIMIT && -OFFSET_LIMIT <= *dy0 && *dy0 <= OFFSET_LIMIT && -OFFSET_LIMIT
            <= *dx1 && *dx1 <= OFFSET_LIMIT && -OFFSET_LIMIT <= *dy1 && *dy1 <= OFFSET_LIMIT,
        LocalPrimitive::Rect { dx0, dy0, dx1, dy1, .. } => -OFFSET_LIMIT <= *dx0 && *dx0
            <= OFFSET_LIMIT && -OFFSET_LIMIT <= *dy0 && *dy0 <= OFFSET_LIMIT && -OFFSET_LIMIT
            <= *dx1 && *dx1 <= OFFSET_LIMIT && -OFFSET_LIMIT <= *dy1 && *dy1 <= OFFSET_LIMIT,
        LocalPrimitive::Path { offsets, .. } => {
            let mut i: usize = 0;
            let mut ok: bool = true;
            while i < offsets.len()
                invariant
                    i <= offsets@.len(),
                    ok == (forall|j: int|
                        0 <= j < i ==> -OFFSET_LIMIT <= #[trigger] offsets@[j].0 <= OFFSET_LIMIT
                            && -OFFSET_LIMIT <= offsets@[j].1 <= OFFSET_LIMIT),
                decreases offsets@.len() - i,
            {
                let (dx, dy) = offsets[i];
                if !(-OFFSET_LIMIT <= dx && dx <= OFFSET_LIMIT && -OFFSET_LIMIT <= dy && dy
                    <= OFFSET_LIMIT) {
                    ok = false;
                }
                i += 1;
            }
            ok
        },
        LocalPrimitive::Circle { dx, dy, .. } => -OFFSET_LIMIT <= *dx && *dx <= OFFSET_LIMIT
            && -OFFSET_LIMIT <= *dy && *dy <= OFFSET_LIMIT,
        LocalPrimitive::Text { dx, dy, .. } => -OFFSET_LIMIT <= *dx && *dx <= OFFSET_LIMIT
            && -OFFSET_LIMIT <= *dy && *dy <= OFFSET_LIMIT,
    }
}

/// A drawable element: a primitive in logical coordinates, or a
/// composed element.
#[derive(Debug)]
pub enum Element {
    Pixel { at: (AxisValue, AxisValue), style: ShapeStyle },
    Line { from: (AxisValue, AxisValue), to: (AxisValue, AxisValue), style: ShapeStyle },
    Rect { corner0: (AxisValue, AxisValue), corner1: (AxisValue, AxisValue), style: ShapeStyle },
    Path { points: Vec<(AxisValue, AxisValue)>, style: ShapeStyle },
    Circle { center: (AxisValue, AxisValue), radius: u32, style: ShapeStyle },
    Text { text: Vec<u8>, at: (AxisValue, AxisValue), style: TextStyle },
    Composed(ComposedElement),
}

impl Element {
    /// The element's internal invariant.
    pub open spec fn wf(&self) -> bool {
        match *self {
            Element::Composed(ce) => ce.wf(),
            _ => true,
        }
    }
}

/// What resolving an element under the 2-D spec `c` must produce: each
/// logical coordinate goes through `c` exactly once, a composed
/// element's anchor goes through `c` once and its parts are pure pixel
/// translation, and the first coordinate error aborts the resolution.
pub open spec fn resolve_spec(
    c: Coord2,
    e: Element,
    r: Result<Vec<DrawCommand>, CoordError>,
) -> bool {
    match e {
        Element::Pixel { at, style } => match coord2_map_at(c, at.0, at.1) {
            Err(e0) => r == Err::<Vec<DrawCommand>, CoordError>(e0),
            Ok(p) => (r matches Ok(cmds) && cmds@.len() == 1 && (cmds@[0]
                matches DrawCommand::Pixel { x, y, style: cs } && x == p.0 && y == p.1 && cs
                == style)),
        },
        Element::Line { from, to, style } => match coord2_map_at(c, from.0, from.1) {
            Err(e0) => r == Err::<Vec<DrawCommand>, CoordError>(e0),
            Ok(p0) => match coord2_map_at(c, to.0, to.1) {
                Err(e0) => r == Err::<Vec<DrawCommand>, CoordError>(e0),
                Ok(p1) => (r matches Ok(cmds) && cmds@.len() == 1 && (cmds@[0]
                    matches DrawCommand::Line { x0, y0, x1, y1, style: cs } && x0 == p0.0 && y0
                    == p0.1 && x1 == p1.0 && y1 == p1.1 && cs == style)),
            },
        },
        Element::Rect { corner0, corner1, style } => match coord2_map_at(c, corner0.0, corner0.1) {
            Err(e0) => r == Err::<Vec<DrawCommand>, CoordError>(e0),
            Ok(p0) => match coord2_map_at(c, corner1.0, corner1.1) {
                Err(e0) => r == Err::<Vec<DrawCommand>, CoordError>(e0),
                Ok(p1) => (r matches Ok(cmds) && cmds@.len() == 1 && (cmds@[0]
                    matches DrawCommand::Rect { x0, y0, x1, y1, style: cs } && x0 == p0.0 && y0
                    == p0.1 && x1 == p1.0 && y1 == p1.1 && cs == style)),
            },
        },
        Element::Path { points, style } => {
            &&& (r matches Ok(_) <==> (forall|i: int|
                0 <= i < points@.len() ==> (#[trigger] coord2_map_at(
                    c,
                    points@[i].0,
                    points@[i].1,
                ) matches Ok(_))))
            &&& (r matches Err(e0) ==> exists|i: int|
                0 <= i < points@.len() && #[trigger] coord2_map_at(c, points@[i].0, points@[i].1)
                    == Err::<(int, int), CoordError>(e0) && (forall|j: int|
                    0 <= j < i ==> (#[trigger] coord2_map_at(
                        c,
                        points@[j].0,
                        points@[j].1,
                    ) matches Ok(_))))
            &&& (r matches Ok(cmds) ==> cmds@.len() == 1 && (cmds@[0] matches DrawCommand::Path {
                points: pts,
                style: cs,
            } && cs == style && pts@.len() == points@.len() && (forall|i: int|
                0 <= i < points@.len() ==> coord2_map_at(c, points@[i].0, points@[i].1) == Ok::<
                    (int, int),
                    CoordError,
                >((#[trigger] pts@[i].0 as int, pts@[i].1 as int)))))
        },
        Element::Circle { center, radius, style } => match coord2_map_at(c, center.0, center.1) {
            Err(e0) => r == Err::<Vec<DrawCommand>, CoordError>(e0),
            Ok(p) => (r matches Ok(cmds) && cmds@.len() == 1 && (cmds@[0]
                matches DrawCommand::Circle { x, y, radius: cr, style: cs } && x == p.0 && y == p.1
                && cr == radius && cs == style)),
        },
        Element::Text { text, at, style } => match coord2_map_at(c, at.0, at.1) {
            Err(e0) => r == Err::<Vec<DrawCommand>, CoordError>(e0),
            Ok(p) => (r matches Ok(cmds) && cmds@.len() == 1 && (cmds@[0]
                matches DrawCommand::Text { text: ct, x, y, style: cs } && ct@ == text@ && x == p.0
                && y == p.1 && text_style_eq(cs, style))),
        },
        Element::Composed(ce) => match coord2_map_at(c, ce.anchor.0, ce.anchor.1) {
            Err(e0) => r == Err::<Vec<DrawCommand>, CoordError>(e0),
            Ok(p) => (r matches Ok(cmds) && cmds@.len() == ce.parts@.len() && (forall|i: int|
                0 <= i < ce.parts@.len() ==> prim_resolves_to(
                    ce.parts@[i],
                    p.0,
                    p.1,
                    #[trigger] cmds@[i],
                ))),
        },
    }
}

/// The composed-element invariant: under any coordinate spec whose
/// translation sends the anchor to the pixel point `(px, py)`, drawing
/// the composed element is exactly drawing each part at `(px, py)` plus
/// its own pixel offsets — the anchor goes through the logical spec
/// once, and no part's offset is ever re-translated.
pub proof fn lemma_composed_pixel_frame(
    c: Coord2,
    ce: ComposedElement,
    r: Result<Vec<DrawCommand>, CoordError>,
    px: int,
    py: int,
)
    requires
        resolve_spec(c, Element::Composed(ce), r),
        coord2_map_at(c, ce.anchor.0, ce.anchor.1) == Ok::<(int, int), CoordError>((px, py)),
    ensures
        r matches Ok(cmds) && cmds@.len() == ce.parts@.len(),
        r matches Ok(cmds) ==> forall|i: int|
            0 <= i < ce.parts@.len() ==> prim_resolves_to(
                ce.parts@[i],
                px,
                py,
                #[trigger] cmds@[i],
            ),
{
}

/// Whether every offset of `p`, shifted by `(dx, dy)`, stays within
/// `OFFSET_LIMIT`.
pub open spec fn prim_shift_ok(p: LocalPrimitive, dx: int, dy: int) -> bool {
    match p {
        LocalPrimitive::Pixel { dx: ax, dy: ay, .. } => -OFFSET_LIMIT <= ax + dx <= OFFSET_LIMIT
            && -OFFSET_LIMIT <= ay + dy <= OFFSET_LIMIT,
        LocalPrimitive::Line { dx0, dy0, dx1, dy1, .. } => -OFFSET_LIMIT <= dx0 + dx
            <= OFFSET_LIMIT && -OFFSET_LIMIT <= dy0 + dy <= OFFSET_LIMIT && -OFFSET_LIMIT <= dx1
            + dx <= OFFSET_LIMIT && -OFFSET_LIMIT <= dy1 + dy <= OFFSET_LIMIT,
        LocalPrimitive::Rect { dx0, dy0, dx1, dy1, .. } => -OFFSET_LIMIT <= dx0 + dx
            <= OFFSET_LIMIT && -OFFSET_LIMIT <= dy0 + dy <= OFFSET_LIMIT && -OFFSET_LIMIT <= dx1
            + dx <= OFFSET_LIMIT && -OFFSET_LIMIT <= dy1 + dy <= OFFSET_LIMIT,
        LocalPrimitive::Path { offsets, .. } => forall|i: int|
            0 <= i < offsets@.len() ==> -OFFSET_LIMIT <= (#[trigger] offsets@[i]).0 + dx
                <= OFFSET_LIMIT && -OFFSET_LIMIT <= (offsets@[i]).1 + dy <= OFFSET_LIMIT,
        LocalPrimitive::Circle { dx: ax, dy: ay, .. } => -OFFSET_LIMIT <= ax + dx <= OFFSET_LIMIT
            && -OFFSET_LIMIT <= ay + dy <= OFFSET_LIMIT,
        LocalPrimitive::Text { dx: ax, dy: ay, .. } => -OFFSET_LIMIT <= ax + dx <= OFFSET_LIMIT
            && -OFFSET_LIMIT <= ay + dy <= OFFSET_LIMIT,
    }
}

/// Whether `q` is `p` carried into a frame `(dx, dy)` away: the same
/// primitive with every offset shifted.
pub open spec fn prim_shifted(p: LocalPrimitive, dx: int, dy: int, q: LocalPrimitive) -> bool {
    match p {
        LocalPrimitive::Pixel { dx: ax, dy: ay, style } => (q matches LocalPrimitive::Pixel {
            dx: bx,
            dy: by,
            style: qs,
        } && bx == ax + dx && by == ay + dy && qs == style),
        LocalPrimitive::Line { dx0, dy0, dx1, dy1, style } => (q matches LocalPrimitive::Line {
            dx0: b0,
            dy0: c0,
            dx1: b1,
            dy1: c1,
            style: qs,
        } && b0 == dx0 + dx && c0 == dy0 + dy && b1 == dx1 + dx && c1 == dy1 + dy && qs == style),
        LocalPrimitive::Rect { dx0, dy0, dx1, dy1, style } => (q matches LocalPrimitive::Rect {
            dx0: b0,
            dy0: c0,
            dx1: b1,
            dy1: c1,
            style: qs,
        } && b0 == dx0 + dx && c0 == dy0 + dy && b1 == dx1 + dx && c1 == dy1 + dy && qs == style),
        LocalPrimitive::Path { offsets, style } => (q matches LocalPrimitive::Path {
            offsets: qo,
            style: qs,
        } && qo@.len() == offsets@.len() && (forall|i: int|
            0 <= i < offsets@.len() ==> #[trigger] qo@[i].0 == offsets@[i].0 + dx && qo@[i].1
                == offsets@[i].1 + dy) && qs == style),
        LocalPrimitive::Circle { dx: ax, dy: ay, radius, style } => (q
            matches LocalPrimitive::Circle {
            dx: bx,
            dy: by,
            radius: qr,
            style: qs,
        } && bx == ax + dx && by == ay + dy && qr == radius && qs == style),
        LocalPrimitive::Text { text, dx: ax, dy: ay, style } => (q matches LocalPrimitive::Text {
            text: qt,
            dx: bx,
            dy: by,
            style: qs,
        } && qt@ == text@ && bx == ax + dx && by == ay + dy && text_style_eq(qs, style)),
    }
}

/// Carries one local primitive into a frame `(dx, dy)` away; refused
/// when a shifted offset would leave `OFFSET_LIMIT`.
#[verifier::loop_isolation(false)]
fn shift_prim(p: &LocalPrimitive, dx: i64, dy: i64) -> (r: Result<LocalPrimitive, LayoutError>)
    requires
        prim_offsets_ok(*p),
        -OFFSET_LIMIT <= dx <= OFFSET_LIMIT,
        -OFFSET_LIMIT <= dy <= OFFSET_LIMIT,
    ensures
        prim_shift_ok(*p, dx as int, dy as int) ==> (r matches Ok(q) && prim_shifted(
            *p,
            dx as int,
            dy as int,
            q,
        ) && prim_offsets_ok(q)),
        !prim_shift_ok(*p, dx as int, dy as int) ==> r == Err::<LocalPrimitive, LayoutError>(
            LayoutError::OffsetTooLarge,
        ),
{
    match p {
        LocalPrimitive::Pixel { dx: ax, dy: ay, style } => {
            let bx = *ax + dx;
            let by = *ay + dy;
            if !(-OFFSET_LIMIT <= bx && bx <= OFFSET_LIMIT && -OFFSET_LIMIT <= by && by
                <= OFFSET_LIMIT) {
                return Err(LayoutError::OffsetTooLarge);
            }
            Ok(LocalPrimitive::Pixel { dx: bx, dy: by, style: *style })
        },
        LocalPrimitive::Line { dx0, dy0, dx1, dy1, style } => {
            let b0 = *dx0 + dx;
            let c0 = *dy0 + dy;
            let b1 = *dx1 + dx;
            let c1 = *dy1 + dy;
            if !(-OFFSET_LIMIT <= b0 && b0 <= OFFSET_LIMIT && -OFFSET_LIMIT <= c0 && c0
                <= OFFSET_LIMIT && -OFFSET_LIMIT <= b1 && b1 <= OFFSET_LIMIT && -OFFSET_LIMIT <= c1
                && c1 <= OFFSET_LIMIT) {
                return Err(LayoutError::OffsetTooLarge);
            }
            Ok(LocalPrimitive::Line { dx0: b0, dy0: c0, dx1: b1, dy1: c1, style: *style })
        },
        LocalPrimitive::Rect { dx0, dy0, dx1, dy1, style } => {
            let b0 = *dx0 + dx;
            let c0 = *dy0 + dy;
            let b1 = *dx1 + dx;
            let c1 = *dy1 + dy;
            if !(-OFFSET_LIMIT <= b0 && b0 <= OFFSET_LIMIT && -OFFSET_LIMIT <= c0 && c0
                <= OFFSET_LIMIT && -OFFSET_LIMIT <= b1 && b1 <= OFFSET_LIMIT && -OFFSET_LIMIT <= c1
                && c1 <= OFFSET_LIMIT) {
                return Err(LayoutError::OffsetTooLarge);
            }
            Ok(LocalPrimitive::Rect { dx0: b0, dy0: c0, dx1: b1, dy1: c1, style: *style })
        },
        LocalPrimitive::Path { offsets, style } => {
            let mut shifted: Vec<(i64, i64)> = Vec::new();
            let mut i: usize = 0;
            while i < offsets.len()
                invariant
                    -OFFSET_LIMIT <= dx <= OFFSET_LIMIT,
                    -OFFSET_LIMIT <= dy <= OFFSET_LIMIT,
                    forall|t: int|
                        0 <= t < offsets@.len() ==> -OFFSET_LIMIT <= #[trigger] offsets@[t].0
                            <= OFFSET_LIMIT && -OFFSET_LIMIT <= offsets@[t].1 <= OFFSET_LIMIT,
                    i <= offsets@.len(),
                    shifted@.len() == i,
                    forall|t: int|
                        0 <= t < i ==> #[trigger] shifted@[t].0 == offsets@[t].0 + dx
                            && shifted@[t].1 == offsets@[t].1 + dy,
                    forall|t: int|
                        0 <= t < i ==> -OFFSET_LIMIT <= #[trigger] shifted@[t].0 <= OFFSET_LIMIT
                            && -OFFSET_LIMIT <= shifted@[t].1 <= OFFSET_LIMIT,
                decreases offsets@.len() - i,
            {
                let (ax, ay) = offsets[i];
                let bx = ax + dx;
                let by = ay + dy;
                if !(-OFFSET_LIMIT <= bx && bx <= OFFSET_LIMIT && -OFFSET_LIMIT <= by && by
                    <= OFFSET_LIMIT) {
                    proof {
                        assert(bx == (offsets@[i as int]).0 + dx);
                        assert(by == (offsets@[i as int]).1 + dy);
                    }
                    return Err(LayoutError::OffsetTooLarge);
                }
                shifted.push((bx, by));
                proof {
                    assert(shifted@[i as int] == (bx, by));
                    assert(shifted@[i as int].0 == offsets@[i as int].0 + dx);
                    assert(shifted@[i as int].1 == offsets@[i as int].1 + dy);
                    assert(-OFFSET_LIMIT <= offsets@[i as int].0 + dx <= OFFSET_LIMIT);
                    assert(-OFFSET_LIMIT <= offsets@[i as int].1 + dy <= OFFSET_LIMIT);
                }
                i += 1;
            }
            proof {
                assert forall|t: int| 0 <= t < offsets@.len() implies -OFFSET_LIMIT
                    <= (#[trigger] offsets@[t]).0 + dx <= OFFSET_LIMIT && -OFFSET_LIMIT
                    <= (offsets@[t]).1 + dy <= OFFSET_LIMIT by {
                    assert(shifted@[t].0 == offsets@[t].0 + dx);
                    assert(shifted@[t].1 == offsets@[t].1 + dy);
                    assert(-OFFSET_LIMIT <= shifted@[t].0 <= OFFSET_LIMIT);
                    assert(-OFFSET_LIMIT <= shifted@[t].1 <= OFFSET_LIMIT);
                }
            }
            Ok(LocalPrimitive::Path { offsets: shifted, style: *style })
        },
        LocalPrimitive::Circle { dx: ax, dy: ay, radius, style } => {
            let bx = *ax + dx;
            let by = *ay + dy;
            if !(-OFFSET_LIMIT <= bx && bx <= OFFSET_LIMIT && -OFFSET_LIMIT <= by && by
                <= OFFSET_LIMIT) {
                return Err(LayoutError::OffsetTooLarge);
            }
            Ok(LocalPrimitive::Circle { dx: bx, dy: by, radius: *radius, style: *style })
        },
        LocalPrimitive::Text { text, dx: ax, dy: ay, style } => {
            let bx = *ax + dx;
            let by = *ay + dy;
            if !(-OFFSET_LIMIT <= bx && bx <= OFFSET_LIMIT && -OFFSET_LIMIT <= by && by
                <= OFFSET_LIMIT) {
                return Err(LayoutError::OffsetTooLarge);
            }
            Ok(
                LocalPrimitive::Text {
                    text: crate::bytes::clone_bytes(text),
                    dx: bx,
                    dy: by,
                    style: style.clone(),
                },
            )
        },
    }
}

impl ComposedElement {
    /// Nests a previously composed element: the child's parts are
    /// carried into this element's frame, `(dx, dy)` away from the
    /// anchor, and appended after the existing parts, preserving both
    /// draw orders.  A shifted offset beyond `OFFSET_LIMIT` is refused
    /// and the element is handed back unchanged.
    #[verifier::loop_isolation(false)]
    pub fn nest(self, dx: i64, dy: i64, child: &ComposedElement) -> (r: Result<ComposedElement, (
        ComposedElement,
        LayoutError,
    )>)
        requires
            self.wf(),
            child.wf(),
            -OFFSET_LIMIT <= dx <= OFFSET_LIMIT,
            -OFFSET_LIMIT <= dy <= OFFSET_LIMIT,
        ensures
            (forall|i: int|
                0 <= i < child.parts@.len() ==> prim_shift_ok(
                    #[trigger] child.parts@[i],
                    dx as int,
                    dy as int,
                )) ==> (r matches Ok(n) && n.anchor == self.anchor && n.wf() && n.parts@.len()
                == self.parts@.len() + child.parts@.len() && (forall|i: int|
                0 <= i < self.parts@.len() ==> #[trigger] n.parts@[i] == self.parts@[i]) && (
            forall|i: int|
                0 <= i < child.parts@.len() ==> prim_shifted(
                    #[trigger] child.parts@[i],
                    dx as int,
                    dy as int,
                    n.parts@[self.parts@.len() + i],
                ))),
            (exists|i: int|
                0 <= i < child.parts@.len() && !prim_shift_ok(
                    #[trigger] child.parts@[i],
                    dx as int,
                    dy as int,
                )) ==> (r matches Err(n) && n.0.anchor == self.anchor && n.0.parts@ == self.parts@
                && n.1 == LayoutError::OffsetTooLarge),
    {
        let mut moved: Vec<LocalPrimitive> = Vec::new();
        let mut i: usize = 0;
        while i < child.parts.len()
            invariant
                self.wf(),
                child.wf(),
                -OFFSET_LIMIT <= dx <= OFFSET_LIMIT,
                -OFFSET_LIMIT <= dy <= OFFSET_LIMIT,
                i <= child.parts@.len(),
                moved@.len() == i,
                forall|t: int|
                    0 <= t < i ==> prim_shifted(
                        #[trigger] child.parts@[t],
                        dx as int,
                        dy as int,
                        moved@[t],
                    ),
                forall|t: int| 0 <= t < i ==> prim_offsets_ok(#[trigger] moved@[t]),
                forall|t: int|
                    0 <= t < i ==> prim_shift_ok(#[trigger] child.parts@[t], dx as int, dy as int),
            decreases child.parts@.len() - i,
        {
            match shift_prim(&child.parts[i], dx, dy) {
                Ok(q) => {
                    moved.push(q);
                },
                Err(e) => {
                    return Err((self, e));
                },
            }
            i += 1;
        }
        let ComposedElement { anchor, mut parts } = self;
        let ghost own = parts@;
        let ghost all = moved@;
        while moved.len() > 0
            invariant
                moved@.len() <= all.len(),
                parts@.len() == own.len() + all.len() - moved@.len(),
                moved@ == all.skip(all.len() - moved@.len()),
                forall|t: int| 0 <= t < own.len() ==> #[trigger] parts@[t] == own[t],
                forall|t: int|
                    0 <= t < all.len() - moved@.len() ==> #[trigger] parts@[own.len() + t]
                        == all[t],
            decreases moved@.len(),
        {
            let q = moved.remove(0);
            proof {
                let done = all.len() - moved@.len() - 1;
                assert(all.skip(done)[0] == all[done]);
                assert(moved@ =~= all.skip(done + 1));
            }
            parts.push(q);
        }
        proof {
            assert(parts@.len() == own.len() + all.len());
            assert forall|t: int| 0 <= t < all.len() implies prim_shifted(
                #[trigger] child.parts@[t],
                dx as int,
                dy as int,
                parts@[own.len() + t],
            ) by {
                assert(parts@[own.len() + t] == all[t]);
            }
            assert forall|t: int| 0 <= t < parts@.len() implies prim_offsets_ok(
                #[trigger] parts@[t],
            ) by {
                if t < own.len() {
                    assert(own[t] == self.parts@[t]);
                    assert(prim_offsets_ok(self.parts@[t]));
                } else {
                    let u = t - own.len();
                    assert(parts@[own.len() + u] == all[u]);
                    assert(own.len() + u == t);
                    assert(prim_offsets_ok(all[u]));
                }
            }
        }
        Ok(ComposedElement { anchor, parts })
    }
}

/// Carrying a primitive into a nested frame and resolving it there is
/// resolving it in the outer frame: nesting composes by offset
/// addition and never touches the logical spec.
pub proof fn lemma_nest_pixel_frame(
    p: LocalPrimitive,
    dx: int,
    dy: int,
    q: LocalPrimitive,
    ox: int,
    oy: int,
    c: DrawCommand,
)
    requires
        prim_shifted(p, dx, dy, q),
        prim_resolves_to(q, ox, oy, c),
    ensures
        prim_resolves_to(p, ox + dx, oy + dy, c),
{
}

/// Shifting frames composes associatively: two nested shifts equal one
/// shift by the summed offsets.
pub proof fn lemma_shift_compose(
    p: LocalPrimitive,
    d1x: int,
    d1y: int,
    q: LocalPrimitive,
    d2x: int,
    d2y: int,
    s: LocalPrimitive,
)
    requires
        prim_shifted(p, d1x, d1y, q),
        prim_shifted(q, d2x, d2y, s),
    ensures
        prim_shifted(p, d1x + d2x, d1y + d2y, s),
{
}

/// An element's resolution outcome under a given spec is determined:
/// one that resolves to commands cannot also fail with a coordinate
/// error.
pub proof fn lemma_resolve_outcome_exclusive(
    c: Coord2,
    e: Element,
    cmds: Vec<DrawCommand>,
    ce: CoordError,
)
    requires
        resolve_spec(c, e, Ok(cmds)),
    ensures
        !resolve_spec(c, e, Err::<Vec<DrawCommand>, CoordError>(ce)),
{
}

} // verus!
