//! The stroke controller: one flag, three handlers.

use vstd::prelude::*;
use crate::command::{DrawCommand, Point};
use crate::event::PointerEvent;

verus! {

/// The commands that answer a press at `p`: a fresh path that starts at `p`.
pub open spec fn press_commands(p: Point) -> Seq<DrawCommand> {
    seq![DrawCommand::BeginPath, DrawCommand::MoveTo(p)]
}

/// The commands that answer a move to `p`. During a stroke: a line to `p`,
/// stroked at once, and a fresh path that starts at `p`. Otherwise none.
pub open spec fn move_commands(active: bool, p: Point) -> Seq<DrawCommand> {
    if active {
        seq![
            DrawCommand::LineTo(p),
            DrawCommand::Stroke,
            DrawCommand::BeginPath,
            DrawCommand::MoveTo(p),
        ]
    } else {
        Seq::empty()
    }
}

/// The commands that answer a release at `p`: a last line to `p`, stroked.
/// They do not depend on whether a stroke was in progress.
pub open spec fn release_commands(p: Point) -> Seq<DrawCommand> {
    seq![DrawCommand::LineTo(p), DrawCommand::Stroke]
}

/// The commands that answer `event` when the flag is `active`.
pub open spec fn commands_for(active: bool, event: PointerEvent) -> Seq<DrawCommand> {
    match event {
        PointerEvent::Press(p) => press_commands(p),
        PointerEvent::Move(p) => move_commands(active, p),
        PointerEvent::Release(p) => release_commands(p),
    }
}

/// The flag after `event`: a press sets it, a release clears it, a move
/// leaves it alone.
pub open spec fn active_after(active: bool, event: PointerEvent) -> bool {
    match event {
        PointerEvent::Press(_) => true,
        PointerEvent::Move(_) => active,
        PointerEvent::Release(_) => false,
    }
}

/// The flag after a whole sequence of events, taken in order.
pub open spec fn active_after_all(active: bool, events: Seq<PointerEvent>) -> bool
    decreases events.len(),
{
    if events.len() == 0 {
        active
    } else {
        active_after(active_after_all(active, events.drop_last()), events.last())
    }
}

/// The commands that answer a whole sequence of events, in order.
pub open spec fn commands_for_all(active: bool, events: Seq<PointerEvent>) -> Seq<DrawCommand>
    decreases events.len(),
{
    if events.len() == 0 {
        Seq::empty()
    } else {
        commands_for_all(active, events.drop_last()) + commands_for(
            active_after_all(active, events.drop_last()),
            events.last(),
        )
    }
}

/// Turns pointer events into drawing commands. It is idle until a press,
/// drawing until the next release.
pub struct StrokeController {
    active: bool,
}

impl StrokeController {
    /// Whether a stroke is in progress.
    pub closed spec fn active(&self) -> bool {
        self.active
    }

    /// An idle controller.
    pub fn new() -> (controller: Self)
        ensures
            !controller.active(),
    {
        StrokeController { active: false }
    }

    /// Whether a stroke is in progress.
    pub fn is_active(&self) -> (active: bool)
        ensures
            active == self.active(),
    {
        self.active
    }

    /// The button went down at `(x, y)`: a stroke begins there, whatever went
    /// before.
    pub fn on_press(&mut self, x: i32, y: i32) -> (commands: Vec<DrawCommand>)
        ensures
            final(self).active(),
            commands@ == press_commands(Point { x, y }),
    {
        let p = Point { x, y };
        self.active = true;
        let mut commands: Vec<DrawCommand> = Vec::new();
        commands.push(DrawCommand::BeginPath);
        commands.push(DrawCommand::MoveTo(p));
        commands
    }

    /// The pointer moved to `(x, y)`. During a stroke this draws one segment
    /// that ends there; otherwise nothing is drawn.
    pub fn on_move(&self, x: i32, y: i32) -> (commands: Vec<DrawCommand>)
        ensures
            commands@ == move_commands(self.active(), Point { x, y }),
            !self.active() ==> commands@.len() == 0,
    {
        let p = Point { x, y };
        let mut commands: Vec<DrawCommand> = Vec::new();
        if self.active {
            commands.push(DrawCommand::LineTo(p));
            commands.push(DrawCommand::Stroke);
            commands.push(DrawCommand::BeginPath);
            commands.push(DrawCommand::MoveTo(p));
        }
        commands
    }

    /// The button came up at `(x, y)`: the stroke ends with a segment that
    /// ends there. The segment is drawn even when no stroke was in progress.
    pub fn on_release(&mut self, x: i32, y: i32) -> (commands: Vec<DrawCommand>)
        ensures
            !final(self).active(),
            commands@ == release_commands(Point { x, y }),
    {
        let p = Point { x, y };
        self.active = false;
        let mut commands: Vec<DrawCommand> = Vec::new();
        commands.push(DrawCommand::LineTo(p));
        commands.push(DrawCommand::Stroke);
        commands
    }

    /// Dispatches `event` to its handler.
    pub fn handle(&mut self, event: PointerEvent) -> (commands: Vec<DrawCommand>)
        ensures
            final(self).active() == active_after(old(self).active(), event),
            commands@ == commands_for(old(self).active(), event),
    {
        match event {
            PointerEvent::Press(p) => self.on_press(p.x, p.y),
            PointerEvent::Move(p) => self.on_move(p.x, p.y),
            PointerEvent::Release(p) => self.on_release(p.x, p.y),
        }
    }

    /// Handles `events` in order and returns all their commands, in order.
    pub fn replay(&mut self, events: &[PointerEvent]) -> (commands: Vec<DrawCommand>)
        ensures
            final(self).active() == active_after_all(old(self).active(), events@),
            commands@ == commands_for_all(old(self).active(), events@),
    {
        let mut commands: Vec<DrawCommand> = Vec::new();
        let mut i: usize = 0;
        while i < events.len()
            invariant
                i <= events.len(),
                self.active() == active_after_all(old(self).active(), events@.take(i as int)),
                commands@ == commands_for_all(old(self).active(), events@.take(i as int)),
            decreases events.len() - i,
        {
            let mut answer = self.handle(events[i]);
            commands.append(&mut answer);
            assert(events@.take(i + 1).drop_last() == events@.take(i as int));
            i += 1;
        }
        assert(events@.take(i as int) == events@);
        commands
    }
}

} // verus!
