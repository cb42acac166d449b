//! Pointer events as the host reports them.

use vstd::prelude::*;
use crate::command::Point;

verus! {

/// A pointer event on the drawing surface. Its point is relative to the
/// surface, not to the page.
#[derive(Clone, Copy, Debug, PartialEq, Eq, Structural)]
pub enum PointerEvent {
    /// The button went down.
    Press(Point),
    /// The pointer moved.
    Move(Point),
    /// The button came up.
    Release(Point),
}

} // verus!
