//! The backend capability set and the dispatch of resolved commands.
//!
//! A backend is an output surface: it draws primitives whose
//! coordinates are already in its own pixel space and performs no
//! coordinate transformation.  The core never inspects a backend
//! error's structure, only whether one occurred, and wraps it opaquely.
use vstd::prelude::*;

verus! {

use crate::area::{rect_covers, DrawingArea, PixelRect};
use crate::coord::CoordError;
use crate::element::{lemma_resolve_outcome_exclusive, resolve_spec, DrawCommand, Element};
use crate::style::{RgbaColor, ShapeStyle, TextStyle};

/// Why a draw call failed: a logical value was refused by the
/// coordinate spec, or a backend primitive failed.  The backend's own
/// error is carried opaquely and never retried.
#[derive(Debug)]
pub enum DrawError<E> {
    Coord(CoordError),
    Backend(E),
}

/// The minimal drawing-primitive capability set every output surface
/// implements.  Coordinates handed to these methods are already in the
/// backend's pixel space.
pub trait DrawingBackend: Sized {
    type ErrorType;

    /// The surface size in pixels, `(width, height)`.
    fn get_size(&self) -> (u32, u32);

    /// Opens a frame: called before the first primitive of a sequence
    /// of draws.  Immediate-mode backends may make this a no-op.
    fn ensure_prepared(&mut self) -> Result<(), Self::ErrorType>;

    /// Closes a frame: called after the last primitive, on every exit
    /// path, success or error.  Buffered backends flush here.
    fn present(&mut self) -> Result<(), Self::ErrorType>;

    fn draw_pixel(&mut self, x: i64, y: i64, style: &ShapeStyle) -> Result<(), Self::ErrorType>;

    fn draw_line(&mut self, x0: i64, y0: i64, x1: i64, y1: i64, style: &ShapeStyle) -> Result<
        (),
        Self::ErrorType,
    >;

    fn draw_rect(&mut self, x0: i64, y0: i64, x1: i64, y1: i64, style: &ShapeStyle) -> Result<
        (),
        Self::ErrorType,
    >;

    fn draw_path(&mut self, points: &Vec<(i64, i64)>, style: &ShapeStyle) -> Result<
        (),
        Self::ErrorType,
    >;

    fn draw_circle(&mut self, x: i64, y: i64, radius: u32, style: &ShapeStyle) -> Result<
        (),
        Self::ErrorType,
    >;

    fn draw_text(&mut self, text: &Vec<u8>, x: i64, y: i64, style: &TextStyle) -> Result<
        (),
        Self::ErrorType,
    >;
}

/// Sends one resolved command to a backend primitive.
pub fn dispatch_command<B: DrawingBackend>(b: &mut B, cmd: &DrawCommand) -> Result<
    (),
    B::ErrorType,
> {
    match cmd {
        DrawCommand::Pixel { x, y, style } => b.draw_pixel(*x, *y, style),
        DrawCommand::Line { x0, y0, x1, y1, style } => b.draw_line(*x0, *y0, *x1, *y1, style),
        DrawCommand::Rect { x0, y0, x1, y1, style } => b.draw_rect(*x0, *y0, *x1, *y1, style),
        DrawCommand::Path { points, style } => b.draw_path(points, style),
        DrawCommand::Circle { x, y, radius, style } => b.draw_circle(*x, *y, *radius, style),
        DrawCommand::Text { text, x, y, style } => b.draw_text(text, *x, *y, style),
    }
}

impl DrawingArea {
    /// Resolves an element and sends its commands to the backend, in
    /// order, inside a `prepare`/`present` bracket.  The first failing
    /// primitive aborts the remaining draws, but `present` is still
    /// attempted so a buffered frame is never left open; primitives
    /// already drawn stay on the surface.  A coordinate error comes
    /// back exactly when the element does not resolve, and before any
    /// backend call; otherwise the outcome is the backend's alone.
    pub fn draw<B: DrawingBackend>(&self, elem: &Element, backend: &mut B) -> (r: Result<
        (),
        DrawError<B::ErrorType>,
    >)
        requires
            self.wf(),
            elem.wf(),
        ensures
            r matches Err(DrawError::Coord(ce)) ==> resolve_spec(self.axes, *elem, Err(ce)),
            (exists|ce: CoordError|
                resolve_spec(self.axes, *elem, Err::<Vec<DrawCommand>, CoordError>(ce))) ==> (r
                matches Err(DrawError::Coord(_))),
            (r matches Ok(_) || r matches Err(DrawError::Backend(_))) ==> (exists|
                cmds: Vec<DrawCommand>,
            |
                resolve_spec(self.axes, *elem, Ok::<Vec<DrawCommand>, CoordError>(cmds))),
    {
        let cmds = match self.resolve(elem) {
            Ok(c) => c,
            Err(ce) => {
                return Err(DrawError::Coord(ce));
            },
        };
        proof {
            assert(resolve_spec(self.axes, *elem, Ok::<Vec<DrawCommand>, CoordError>(cmds)));
            assert forall|ce: CoordError|
                !resolve_spec(self.axes, *elem, Err::<Vec<DrawCommand>, CoordError>(ce)) by {
                if resolve_spec(self.axes, *elem, Err::<Vec<DrawCommand>, CoordError>(ce)) {
                    lemma_resolve_outcome_exclusive(self.axes, *elem, cmds, ce);
                }
            }
        }
        if let Err(e) = backend.ensure_prepared() {
            return Err(DrawError::Backend(e));
        }
        let mut first: Option<B::ErrorType> = None;
        let mut k: usize = 0;
        while k < cmds.len() && first.is_none()
            invariant
                k <= cmds@.len(),
            decreases cmds@.len() - k,
        {
            if let Err(e) = dispatch_command(backend, &cmds[k]) {
                first = Some(e);
            }
            k += 1;
        }
        match backend.present() {
            Ok(()) => {},
            Err(pe) => {
                if first.is_none() {
                    first = Some(pe);
                }
            },
        }
        match first {
            None => Ok(()),
            Some(e) => Err(DrawError::Backend(e)),
        }
    }

    /// Paints the whole area with the fill command inside a
    /// `prepare`/`present` bracket.  No coordinate is translated here,
    /// so a coordinate error can never come back: any failure is the
    /// backend's own.
    pub fn fill_onto<B: DrawingBackend>(&self, color: RgbaColor, backend: &mut B) -> (r: Result<
        (),
        DrawError<B::ErrorType>,
    >)
        requires
            self.wf(),
        ensures
            !(r matches Err(DrawError::Coord(_))),
    {
        if let Err(e) = backend.ensure_prepared() {
            return Err(DrawError::Backend(e));
        }
        let cmd = self.fill(color);
        let mut first: Option<B::ErrorType> = None;
        if let Err(e) = dispatch_command(backend, &cmd) {
            first = Some(e);
        }
        match backend.present() {
            Ok(()) => {},
            Err(pe) => {
                if first.is_none() {
                    first = Some(pe);
                }
            },
        }
        match first {
            None => Ok(()),
            Some(e) => Err(DrawError::Backend(e)),
        }
    }
}

/// An idealized raster after an opaque rectangle fill: every pixel the
/// rectangle covers takes the fill colour, every other pixel keeps its
/// previous colour.
pub open spec fn apply_opaque_fill(
    canvas: Map<(int, int), RgbaColor>,
    r: PixelRect,
    color: RgbaColor,
) -> Map<(int, int), RgbaColor> {
    Map::new(
        |p: (int, int)| canvas.dom().contains(p) || rect_covers(r, p.0, p.1),
        |p: (int, int)|
            if rect_covers(r, p.0, p.1) {
                color
            } else {
                canvas[p]
            },
    )
}

/// Filling an area twice with the same style shows the same picture as
/// filling it once: the fill command is a pure function of the area and
/// the style, and an opaque fill is idempotent on the raster.
pub proof fn lemma_fill_idempotent(
    canvas: Map<(int, int), RgbaColor>,
    r: PixelRect,
    color: RgbaColor,
)
    ensures
        apply_opaque_fill(apply_opaque_fill(canvas, r, color), r, color) == apply_opaque_fill(
            canvas,
            r,
            color,
        ),
{
    let once = apply_opaque_fill(canvas, r, color);
    let twice = apply_opaque_fill(once, r, color);
    assert(twice =~= once);
}

} // verus!
