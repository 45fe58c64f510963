//! A 2-D plotting core: logical-to-pixel coordinate specs, sub-dividable
//! drawing areas, and composable drawing elements that resolve into
//! backend-agnostic pixel commands.
pub mod area;
pub mod axes;
pub mod backend;
pub mod bytes;
pub mod chart;
pub mod coord;
pub mod element;
pub mod logscale;
pub mod prelude;
pub mod rounding;
pub mod style;
