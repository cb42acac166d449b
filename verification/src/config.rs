//! The widget's fixed settings.

use vstd::prelude::*;

verus! {

/// Selector of the element of the host document that receives the surface.
pub const MOUNT_SELECTOR: &'static str = "#drawer";

/// Width of the drawing surface, in pixels.
pub const SURFACE_WIDTH: u32 = 800;

/// Height of the drawing surface, in pixels.
pub const SURFACE_HEIGHT: u32 = 600;

/// Border of the drawing surface, as a style value.
pub const SURFACE_BORDER: &'static str = "1px solid blue";

/// Colour of every stroke.
pub const STROKE_COLOR: &'static str = "pink";

/// Width of every stroke, in pixels.
pub const LINE_WIDTH: u32 = 2;

/// Name of the host event that is reported as a press.
pub const PRESS_EVENT: &'static str = "mousedown";

/// Name of the host event that is reported as a move.
pub const MOVE_EVENT: &'static str = "mousemove";

/// Name of the host event that is reported as a release.
pub const RELEASE_EVENT: &'static str = "mouseup";

} // verus!
