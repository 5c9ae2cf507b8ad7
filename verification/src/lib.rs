//! Core of an interactive Mandelbrot viewer.
//!
//! The viewer keeps a world-space viewport (a center point and a zoom
//! factor) and turns pointer gestures into viewport updates: panning moves
//! the center proportionally to the zoom, and zooming is anchored at the
//! cursor so that the world point under the pointer stays under the pointer.
//! A render pipeline model derives the per-frame draw data (uniforms, the
//! full-surface quad, an adaptive iteration cap) from the viewport and the
//! surface size.
//!
//! All coordinates and scale factors are fixed-point values: an `i64`
//! counting millionths of a world unit, so the transformation math is exact
//! integer arithmetic.

pub mod fixed;
pub mod iteration;
pub mod pipeline;
pub mod viewport;
