use sketchpad::{DrawCommand, Point, PointerEvent, StrokeController};

fn at(x: i32, y: i32) -> Point {
    Point { x, y }
}

#[test]
fn new_controller_is_idle() {
    let controller = StrokeController::new();
    assert!(!controller.is_active());
}

#[test]
fn press_starts_a_path_at_the_point() {
    let mut controller = StrokeController::new();
    let commands = controller.on_press(10, 20);
    assert_eq!(commands, vec![DrawCommand::BeginPath, DrawCommand::MoveTo(at(10, 20))]);
    assert!(controller.is_active());
}

#[test]
fn move_while_idle_gives_no_command() {
    let controller = StrokeController::new();
    let commands = controller.on_move(5, 5);
    assert_eq!(commands, vec![]);
    assert!(!controller.is_active());
}

#[test]
fn repeated_moves_while_idle_give_no_command() {
    let mut controller = StrokeController::new();
    for i in 0..50 {
        assert!(controller.on_move(i, -i).is_empty());
        assert!(controller.handle(PointerEvent::Move(at(-i, i))).is_empty());
        assert!(!controller.is_active());
    }
}

#[test]
fn move_during_a_stroke_draws_and_restarts_the_path() {
    let mut controller = StrokeController::new();
    controller.on_press(0, 0);
    let commands = controller.on_move(7, 9);
    assert_eq!(
        commands,
        vec![
            DrawCommand::LineTo(at(7, 9)),
            DrawCommand::Stroke,
            DrawCommand::BeginPath,
            DrawCommand::MoveTo(at(7, 9)),
        ]
    );
    assert!(controller.is_active());
}

#[test]
fn release_strokes_a_last_line_and_ends_the_stroke() {
    let mut controller = StrokeController::new();
    controller.on_press(1, 2);
    let commands = controller.on_release(3, 4);
    assert_eq!(commands, vec![DrawCommand::LineTo(at(3, 4)), DrawCommand::Stroke]);
    assert!(!controller.is_active());
}

#[test]
fn release_while_idle_still_strokes_a_line() {
    let mut controller = StrokeController::new();
    let commands = controller.on_release(1, 1);
    assert_eq!(commands, vec![DrawCommand::LineTo(at(1, 1)), DrawCommand::Stroke]);
    assert!(!controller.is_active());
}

#[test]
fn press_during_a_stroke_starts_again() {
    let mut controller = StrokeController::new();
    controller.on_press(1, 1);
    controller.on_move(2, 2);
    let commands = controller.on_press(40, 50);
    assert_eq!(commands, vec![DrawCommand::BeginPath, DrawCommand::MoveTo(at(40, 50))]);
    assert!(controller.is_active());
}

#[test]
fn active_exactly_between_press_and_release() {
    let mut controller = StrokeController::new();
    let events = [
        (PointerEvent::Move(at(0, 0)), false),
        (PointerEvent::Press(at(1, 1)), true),
        (PointerEvent::Move(at(2, 2)), true),
        (PointerEvent::Move(at(3, 3)), true),
        (PointerEvent::Release(at(4, 4)), false),
        (PointerEvent::Move(at(5, 5)), false),
        (PointerEvent::Release(at(6, 6)), false),
        (PointerEvent::Press(at(7, 7)), true),
        (PointerEvent::Press(at(8, 8)), true),
        (PointerEvent::Release(at(9, 9)), false),
    ];
    for (event, active) in events {
        controller.handle(event);
        assert_eq!(controller.is_active(), active);
    }
}

#[test]
fn handle_answers_as_the_handlers_do() {
    let mut by_event = StrokeController::new();
    let mut by_handler = StrokeController::new();
    assert_eq!(by_event.handle(PointerEvent::Move(at(1, 2))), by_handler.on_move(1, 2));
    assert_eq!(by_event.handle(PointerEvent::Press(at(3, 4))), by_handler.on_press(3, 4));
    assert_eq!(by_event.handle(PointerEvent::Move(at(5, 6))), by_handler.on_move(5, 6));
    assert_eq!(by_event.handle(PointerEvent::Release(at(7, 8))), by_handler.on_release(7, 8));
    assert_eq!(by_event.is_active(), by_handler.is_active());
}

#[test]
fn replay_gives_every_command_in_order() {
    let mut controller = StrokeController::new();
    let commands = controller.replay(&[
        PointerEvent::Move(at(9, 9)),
        PointerEvent::Press(at(0, 0)),
        PointerEvent::Move(at(1, 0)),
        PointerEvent::Release(at(2, 0)),
    ]);
    assert_eq!(
        commands,
        vec![
            DrawCommand::BeginPath,
            DrawCommand::MoveTo(at(0, 0)),
            DrawCommand::LineTo(at(1, 0)),
            DrawCommand::Stroke,
            DrawCommand::BeginPath,
            DrawCommand::MoveTo(at(1, 0)),
            DrawCommand::LineTo(at(2, 0)),
            DrawCommand::Stroke,
        ]
    );
    assert!(!controller.is_active());
}

#[test]
fn replay_goes_on_from_the_state_it_finds() {
    let mut controller = StrokeController::new();
    controller.on_press(0, 0);
    let commands = controller.replay(&[PointerEvent::Move(at(3, 3))]);
    assert_eq!(commands.len(), 4);
    assert!(controller.is_active());
    assert_eq!(controller.replay(&[]), vec![]);
    assert!(controller.is_active());
}

#[test]
fn coordinates_pass_through_unchanged() {
    let mut controller = StrokeController::new();
    let commands = controller.on_press(i32::MIN, i32::MAX);
    assert_eq!(commands[1], DrawCommand::MoveTo(at(i32::MIN, i32::MAX)));
    let commands = controller.on_move(-1, 0);
    assert_eq!(commands[0], DrawCommand::LineTo(at(-1, 0)));
    assert_eq!(commands[3], DrawCommand::MoveTo(at(-1, 0)));
    let commands = controller.on_release(i32::MAX, i32::MIN);
    assert_eq!(commands[0], DrawCommand::LineTo(at(i32::MAX, i32::MIN)));
}

#[test]
fn replay_in_two_runs_is_replay_at_once() {
    let events = [
        PointerEvent::Move(at(1, 1)),
        PointerEvent::Press(at(2, 2)),
        PointerEvent::Move(at(3, 3)),
        PointerEvent::Move(at(4, 4)),
        PointerEvent::Release(at(5, 5)),
        PointerEvent::Move(at(6, 6)),
    ];
    let mut at_once = StrokeController::new();
    let expected = at_once.replay(&events);
    for cut in 0..=events.len() {
        let mut in_runs = StrokeController::new();
        let mut commands = in_runs.replay(&events[..cut]);
        commands.extend(in_runs.replay(&events[cut..]));
        assert_eq!(commands, expected);
        assert_eq!(in_runs.is_active(), at_once.is_active());
    }
}
