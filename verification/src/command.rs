//! Points on the drawing surface and the commands sent to its rendering context.

use vstd::prelude::*;

verus! {

/// A position on the drawing surface, measured in pixels from its top-left
/// corner.
#[derive(Clone, Copy, Debug, PartialEq, Eq, Structural)]
pub struct Point {
    pub x: i32,
    pub y: i32,
}

/// One instruction for the rendering context.
#[derive(Clone, Copy, Debug, PartialEq, Eq, Structural)]
pub enum DrawCommand {
    /// Empty the current path; lines that were never stroked are lost.
    BeginPath,
    /// Put the path cursor at a point without drawing.
    MoveTo(Point),
    /// Add a straight line from the path cursor to a point and leave the
    /// cursor there.
    LineTo(Point),
    /// Render the lines of the current path.
    Stroke,
}

} // verus!
