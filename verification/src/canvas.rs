//! An in-memory rendering context that remembers what was stroked.

use vstd::prelude::*;
use crate::command::{DrawCommand, Point};

verus! {

/// A straight line on the surface. `from` is `None` when the line was added
/// to a path that had no cursor yet.
#[derive(Clone, Copy, Debug, PartialEq, Eq)]
pub struct Segment {
    pub from: Option<Point>,
    pub to: Point,
}

/// What a rendering context holds: the path under construction and the
/// picture so far.
pub struct CanvasState {
    /// Where the next line starts; `None` while the path is empty.
    pub cursor: Option<Point>,
    /// The lines of the current path that no stroke has rendered yet.
    pub unstroked: Seq<Segment>,
    /// Every line rendered so far, oldest first.
    pub stroked: Seq<Segment>,
}

impl CanvasState {
    /// An empty path on an empty picture.
    pub open spec fn blank() -> CanvasState {
        CanvasState { cursor: None, unstroked: Seq::empty(), stroked: Seq::empty() }
    }

    /// The state after one command.
    ///
    /// A stroke renders each line of the path once: stroking the same path
    /// again paints over the same pixels and adds nothing to the picture.
    pub open spec fn apply(self, command: DrawCommand) -> CanvasState {
        match command {
            DrawCommand::BeginPath => CanvasState {
                cursor: None,
                unstroked: Seq::empty(),
                stroked: self.stroked,
            },
            DrawCommand::MoveTo(p) => CanvasState {
                cursor: Some(p),
                unstroked: self.unstroked,
                stroked: self.stroked,
            },
            DrawCommand::LineTo(p) => CanvasState {
                cursor: Some(p),
                unstroked: self.unstroked.push(Segment { from: self.cursor, to: p }),
                stroked: self.stroked,
            },
            DrawCommand::Stroke => CanvasState {
                cursor: self.cursor,
                unstroked: Seq::empty(),
                stroked: self.stroked + self.unstroked,
            },
        }
    }

    /// The state after a sequence of commands, carried out in order.
    pub open spec fn apply_all(self, commands: Seq<DrawCommand>) -> CanvasState
        decreases commands.len(),
    {
        if commands.len() == 0 {
            self
        } else {
            self.apply_all(commands.drop_last()).apply(commands.last())
        }
    }
}

/// A rendering context that keeps its picture as a list of segments, for
/// hosts without a screen.
pub struct Canvas {
    cursor: Option<Point>,
    unstroked: Vec<Segment>,
    stroked: Vec<Segment>,
}

impl View for Canvas {
    type V = CanvasState;

    closed spec fn view(&self) -> CanvasState {
        CanvasState {
            cursor: self.cursor,
            unstroked: self.unstroked@,
            stroked: self.stroked@,
        }
    }
}

impl Canvas {
    /// A canvas on which nothing has been drawn.
    pub fn new() -> (canvas: Self)
        ensures
            canvas@ == CanvasState::blank(),
    {
        Canvas { cursor: None, unstroked: Vec::new(), stroked: Vec::new() }
    }

    /// Carries out one command.
    pub fn apply(&mut self, command: DrawCommand)
        ensures
            final(self)@ == old(self)@.apply(command),
    {
        match command {
            DrawCommand::BeginPath => {
                self.cursor = None;
                self.unstroked.clear();
            },
            DrawCommand::MoveTo(p) => {
                self.cursor = Some(p);
            },
            DrawCommand::LineTo(p) => {
                self.unstroked.push(Segment { from: self.cursor, to: p });
                self.cursor = Some(p);
            },
            DrawCommand::Stroke => {
                self.stroked.append(&mut self.unstroked);
            },
        }
    }

    /// Carries out `commands` in order.
    pub fn draw(&mut self, commands: &[DrawCommand])
        ensures
            final(self)@ == old(self)@.apply_all(commands@),
    {
        let mut i: usize = 0;
        while i < commands.len()
            invariant
                i <= commands.len(),
                self@ == old(self)@.apply_all(commands@.take(i as int)),
            decreases commands.len() - i,
        {
            self.apply(commands[i]);
            assert(commands@.take(i + 1).drop_last() == commands@.take(i as int));
            i += 1;
        }
        assert(commands@.take(i as int) == commands@);
    }

    /// Where the next line would start.
    pub fn cursor(&self) -> (cursor: Option<Point>)
        ensures
            cursor == self@.cursor,
    {
        self.cursor
    }

    /// The lines of the current path that no stroke has rendered yet.
    pub fn unstroked(&self) -> (segments: &[Segment])
        ensures
            segments@ == self@.unstroked,
    {
        self.unstroked.as_slice()
    }

    /// Every segment stroked so far, oldest first.
    pub fn segments(&self) -> (segments: &[Segment])
        ensures
            segments@ == self@.stroked,
    {
        self.stroked.as_slice()
    }
}

} // verus!
