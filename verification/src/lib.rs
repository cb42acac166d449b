//! A freehand drawing widget, reduced to its decisions.
//!
//! The host reports pointer events; a [`StrokeController`] answers each with
//! the drawing commands that the rendering context has to carry out. A
//! [`Canvas`] is an in-memory rendering context that remembers what those
//! commands stroke.

pub mod canvas;
pub mod command;
pub mod config;
pub mod controller;
pub mod event;
pub mod laws;

pub use canvas::{Canvas, CanvasState, Segment};
pub use command::{DrawCommand, Point};
pub use controller::StrokeController;
pub use event::PointerEvent;
