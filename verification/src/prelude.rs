//! The most commonly used types of the library, for a single import.
pub use crate::area::{DrawingArea, PixelRect};
pub use crate::axes::{AxisRange, AxisSpec, AxisValue, Coord2};
pub use crate::backend::{DrawError, DrawingBackend};
pub use crate::chart::{ChartBuilder, ChartContext};
pub use crate::coord::{CoordError, DiscreteSpec, LinearSpec};
pub use crate::element::{ComposedElement, DrawCommand, Element, LocalPrimitive};
pub use crate::logscale::LogSpec;
pub use crate::style::{FontDesc, RgbaColor, ShapeStyle, TextStyle};
