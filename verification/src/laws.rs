//! What holds of the controller and a rendering context together.

use vstd::prelude::*;
use crate::canvas::{CanvasState, Segment};
use crate::command::{DrawCommand, Point};
use crate::controller::{
    active_after, active_after_all, commands_for, commands_for_all, move_commands, press_commands,
    release_commands,
};
use crate::event::PointerEvent;

verus! {

/// One move event for each of `points`, in order.
pub open spec fn moves(points: Seq<Point>) -> Seq<PointerEvent> {
    Seq::new(points.len(), |i: int| PointerEvent::Move(points[i]))
}

/// The events of one whole stroke: a press at `start`, a move to each point
/// of `through`, a release at `end`.
pub open spec fn stroke_events(start: Point, through: Seq<Point>, end: Point) -> Seq<PointerEvent> {
    (seq![PointerEvent::Press(start)] + moves(through)).push(PointerEvent::Release(end))
}

/// The segments that join each point of `points` to the next one.
pub open spec fn polyline(points: Seq<Point>) -> Seq<Segment> {
    Seq::new(
        (points.len() - 1) as nat,
        |i: int| Segment { from: Some(points[i]), to: points[i + 1] },
    )
}

/// Whether `events[i]` is a press that no later event of `events` releases.
pub open spec fn unreleased_press(events: Seq<PointerEvent>, i: int) -> bool {
    &&& 0 <= i < events.len()
    &&& events[i] is Press
    &&& forall|j: int| i < j < events.len() ==> !(#[trigger] events[j] is Release)
}

/// Carrying out `commands` and then `last` is carrying out `commands` with
/// `last` at its end.
pub proof fn lemma_apply_all_push(canvas: CanvasState, commands: Seq<DrawCommand>, last: DrawCommand)
    ensures
        canvas.apply_all(commands.push(last)) == canvas.apply_all(commands).apply(last),
{
    assert(commands.push(last).drop_last() == commands);
}

/// Carrying out two batches of commands one after the other is carrying out
/// their concatenation.
pub proof fn lemma_apply_all_concat(
    canvas: CanvasState,
    first: Seq<DrawCommand>,
    second: Seq<DrawCommand>,
)
    ensures
        canvas.apply_all(first + second) == canvas.apply_all(first).apply_all(second),
    decreases second.len(),
{
    if second.len() == 0 {
        assert(first + second == first);
    } else {
        lemma_apply_all_concat(canvas, first, second.drop_last());
        assert((first + second).drop_last() == first + second.drop_last());
    }
}

/// Handling two runs of events one after the other is handling their
/// concatenation.
pub proof fn lemma_events_concat(
    active: bool,
    first: Seq<PointerEvent>,
    second: Seq<PointerEvent>,
)
    ensures
        active_after_all(active, first + second) == active_after_all(
            active_after_all(active, first),
            second,
        ),
        commands_for_all(active, first + second) == commands_for_all(active, first)
            + commands_for_all(active_after_all(active, first), second),
    decreases second.len(),
{
    if second.len() == 0 {
        assert(first + second == first);
    } else {
        lemma_events_concat(active, first, second.drop_last());
        assert((first + second).drop_last() == first + second.drop_last());
    }
}

/// A press leaves the rendering context with an empty path whose cursor is
/// the pressed point, and adds nothing to the picture. Neither the flag nor
/// the path from before matters: a press during a stroke drops the line in
/// progress and starts afresh.
pub proof fn lemma_press_starts_afresh(active: bool, canvas: CanvasState, p: Point)
    ensures
        active_after(active, PointerEvent::Press(p)),
        canvas.apply_all(commands_for(active, PointerEvent::Press(p))) == (CanvasState {
            cursor: Some(p),
            unstroked: Seq::empty(),
            stroked: canvas.stroked,
        }),
{
    let c0 = Seq::<DrawCommand>::empty();
    let c1 = c0.push(DrawCommand::BeginPath);
    lemma_apply_all_push(canvas, c0, DrawCommand::BeginPath);
    lemma_apply_all_push(canvas, c1, DrawCommand::MoveTo(p));
    assert(press_commands(p) == c1.push(DrawCommand::MoveTo(p)));
}

/// A move during a stroke adds to the picture the lines of the path, the
/// one from the cursor to the new point last, and leaves an empty path whose
/// cursor is the new point.
pub proof fn lemma_move_draws_segment(canvas: CanvasState, p: Point)
    ensures
        canvas.apply_all(commands_for(true, PointerEvent::Move(p))) == (CanvasState {
            cursor: Some(p),
            unstroked: Seq::empty(),
            stroked: canvas.stroked + canvas.unstroked.push(
                Segment { from: canvas.cursor, to: p },
            ),
        }),
{
    let c0 = Seq::<DrawCommand>::empty();
    let c1 = c0.push(DrawCommand::LineTo(p));
    let c2 = c1.push(DrawCommand::Stroke);
    let c3 = c2.push(DrawCommand::BeginPath);
    lemma_apply_all_push(canvas, c0, DrawCommand::LineTo(p));
    lemma_apply_all_push(canvas, c1, DrawCommand::Stroke);
    lemma_apply_all_push(canvas, c2, DrawCommand::BeginPath);
    lemma_apply_all_push(canvas, c3, DrawCommand::MoveTo(p));
    assert(move_commands(true, p) == c3.push(DrawCommand::MoveTo(p)));
}

/// A release adds to the picture the lines of the path, the one from the
/// cursor to the released point last, whether or not a stroke was in
/// progress. On a path without a cursor that line has no starting point.
pub proof fn lemma_release_draws_segment(active: bool, canvas: CanvasState, p: Point)
    ensures
        !active_after(active, PointerEvent::Release(p)),
        canvas.apply_all(commands_for(active, PointerEvent::Release(p))) == (CanvasState {
            cursor: Some(p),
            unstroked: Seq::empty(),
            stroked: canvas.stroked + canvas.unstroked.push(
                Segment { from: canvas.cursor, to: p },
            ),
        }),
{
    let c0 = Seq::<DrawCommand>::empty();
    let c1 = c0.push(DrawCommand::LineTo(p));
    lemma_apply_all_push(canvas, c0, DrawCommand::LineTo(p));
    lemma_apply_all_push(canvas, c1, DrawCommand::Stroke);
    assert(release_commands(p) == c1.push(DrawCommand::Stroke));
}

/// Moves outside a stroke, however many, give no command and leave the
/// controller idle.
pub proof fn lemma_idle_moves_draw_nothing(points: Seq<Point>)
    ensures
        !active_after_all(false, moves(points)),
        commands_for_all(false, moves(points)) == Seq::<DrawCommand>::empty(),
    decreases points.len(),
{
    if points.len() > 0 {
        lemma_idle_moves_draw_nothing(points.drop_last());
        assert(moves(points).drop_last() == moves(points.drop_last()));
    }
}

/// After a press at `start` and a move to each point of `through`, the
/// controller is drawing, the path is empty with its cursor at the last
/// point, and the picture has gained the segments that join the points.
pub proof fn lemma_press_then_moves(
    active: bool,
    canvas: CanvasState,
    start: Point,
    through: Seq<Point>,
)
    ensures
        ({
            let events = seq![PointerEvent::Press(start)] + moves(through);
            let points = seq![start] + through;
            &&& active_after_all(active, events)
            &&& canvas.apply_all(commands_for_all(active, events)) == (CanvasState {
                cursor: Some(points.last()),
                unstroked: Seq::empty(),
                stroked: canvas.stroked + polyline(points),
            })
        }),
    decreases through.len(),
{
    let events = seq![PointerEvent::Press(start)] + moves(through);
    let points = seq![start] + through;
    if through.len() == 0 {
        let press = PointerEvent::Press(start);
        assert(events.drop_last() == Seq::<PointerEvent>::empty());
        assert(events.last() == press);
        assert(commands_for_all(active, events.drop_last()) == Seq::<DrawCommand>::empty());
        assert(commands_for_all(active, events) == commands_for(active, press));
        lemma_press_starts_afresh(active, canvas, start);
        assert(canvas.stroked + polyline(points) == canvas.stroked);
    } else {
        let earlier = seq![PointerEvent::Press(start)] + moves(through.drop_last());
        let earlier_points = seq![start] + through.drop_last();
        let p = through.last();
        lemma_press_then_moves(active, canvas, start, through.drop_last());
        assert(events.drop_last() == earlier);
        assert(events.last() == PointerEvent::Move(p));
        let before = canvas.apply_all(commands_for_all(active, earlier));
        lemma_apply_all_concat(
            canvas,
            commands_for_all(active, earlier),
            commands_for(true, PointerEvent::Move(p)),
        );
        lemma_move_draws_segment(before, p);
        assert(canvas.stroked + polyline(points) == (canvas.stroked + polyline(earlier_points))
            + Seq::<Segment>::empty().push(Segment { from: Some(earlier_points.last()), to: p }));
    }
}

/// A whole stroke (a press, `n` moves, a release) adds exactly `n + 1`
/// segments to the picture: those that join each of its points to the next,
/// in the order of the events. It leaves the controller idle. This holds
/// from every state of the controller and of the rendering context.
pub proof fn lemma_stroke_draws_polyline(
    active: bool,
    canvas: CanvasState,
    start: Point,
    through: Seq<Point>,
    end: Point,
)
    ensures
        ({
            let events = stroke_events(start, through, end);
            let points = (seq![start] + through).push(end);
            let after = canvas.apply_all(commands_for_all(active, events));
            &&& !active_after_all(active, events)
            &&& after.stroked == canvas.stroked + polyline(points)
            &&& polyline(points).len() == through.len() + 1
            &&& after.unstroked == Seq::<Segment>::empty()
            &&& after.cursor == Some(end)
        }),
{
    let earlier = seq![PointerEvent::Press(start)] + moves(through);
    let earlier_points = seq![start] + through;
    let events = stroke_events(start, through, end);
    let points = earlier_points.push(end);
    let release = PointerEvent::Release(end);
    lemma_press_then_moves(active, canvas, start, through);
    assert(events.drop_last() == earlier);
    assert(events.last() == release);
    let before = canvas.apply_all(commands_for_all(active, earlier));
    lemma_apply_all_concat(canvas, commands_for_all(active, earlier), commands_for(true, release));
    lemma_release_draws_segment(true, before, end);
    assert(canvas.stroked + polyline(points) == (canvas.stroked + polyline(earlier_points))
        + Seq::<Segment>::empty().push(Segment { from: Some(earlier_points.last()), to: end }));
}

/// Every handler strokes the line it adds: on a path whose lines are all
/// stroked, no sequence of events leaves a line that is not.
pub proof fn lemma_events_leave_no_line_unstroked(
    active: bool,
    canvas: CanvasState,
    events: Seq<PointerEvent>,
)
    requires
        canvas.unstroked.len() == 0,
    ensures
        canvas.apply_all(commands_for_all(active, events)).unstroked.len() == 0,
    decreases events.len(),
{
    if events.len() > 0 {
        let earlier = events.drop_last();
        let flag = active_after_all(active, earlier);
        let before = canvas.apply_all(commands_for_all(active, earlier));
        lemma_events_leave_no_line_unstroked(active, canvas, earlier);
        lemma_apply_all_concat(
            canvas,
            commands_for_all(active, earlier),
            commands_for(flag, events.last()),
        );
        match events.last() {
            PointerEvent::Press(p) => {
                lemma_press_starts_afresh(flag, before, p);
            },
            PointerEvent::Move(p) => {
                if flag {
                    lemma_move_draws_segment(before, p);
                }
            },
            PointerEvent::Release(p) => {
                lemma_release_draws_segment(flag, before, p);
            },
        }
    }
}

/// Starting idle, the controller is drawing after a sequence of events
/// exactly when the sequence holds a press with no release after it.
pub proof fn lemma_active_between_press_and_release(events: Seq<PointerEvent>)
    ensures
        active_after_all(false, events) <==> exists|i: int| unreleased_press(events, i),
    decreases events.len(),
{
    if events.len() > 0 {
        let earlier = events.drop_last();
        let last = events.len() - 1;
        lemma_active_between_press_and_release(earlier);
        match events.last() {
            PointerEvent::Press(_) => {
                assert(unreleased_press(events, last));
            },
            PointerEvent::Release(_) => {
                assert(events[last] is Release);
            },
            PointerEvent::Move(_) => {
                // A move at the end neither adds nor closes a press.
                assert forall|i: int| unreleased_press(earlier, i) <==> unreleased_press(
                    events,
                    i,
                ) by {
                    assert forall|j: int| 0 <= j < last implies earlier[j] == events[j] by {}
                    assert(!(events[last] is Release));
                }
            },
        }
    }
}

} // verus!
