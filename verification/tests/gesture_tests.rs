use vecred::drawing::{Drawing, Tool};
use vecred::editor::VecRed;
use vecred::framework::{Cursor, Event, Framework, MouseEvent, Status};
use vecred::message::Message;
use vecred::model::{Model, Point, Position};

fn at(x: i32, y: i32) -> Position {
    Position { x, y }
}

fn dot(x: i32, y: i32) -> Point {
    Point { position: at(x, y), radius: 20 }
}

/// A cursor whose screen position lies 1000 to the right of its model
/// position, so that the two cannot be mistaken for each other.
fn cursor(x: i32, y: i32) -> Cursor {
    Cursor { screen: at(x + 1000, y), model: at(x, y) }
}

fn store(points: &[(i32, i32)]) -> Model {
    let mut model = Model::new();
    for &(x, y) in points {
        model.insert_point(dot(x, y));
    }
    model
}

fn send(
    model: &Model,
    mode: Tool,
    state: &mut Drawing,
    mouse: MouseEvent,
    x: i32,
    y: i32,
) -> (Status, Option<Message>) {
    let canvas = Framework { model, scale: 5, mode };
    canvas.update(state, Event::Mouse(mouse), Some(cursor(x, y)))
}

#[test]
fn tool_names() {
    assert_eq!(Tool::Move.as_str(), "Move");
    assert_eq!(Tool::Point.as_str(), "Point");
    assert_eq!(Tool::Line.as_str(), "Line");
    assert_eq!(Tool::Arc.as_str(), "Arc");
}

#[test]
fn state_names_its_tool() {
    let anchor = at(1, 2);
    assert_eq!(Drawing::Idle.as_str(), "Move");
    assert_eq!(Drawing::Scaling { starting_point: anchor }.as_str(), "Move");
    assert_eq!(Drawing::SelectPoint { point: anchor, num: 0 }.as_str(), "Move");
    assert_eq!(Drawing::Point.as_str(), "Point");
    assert_eq!(Drawing::Line.as_str(), "Line");
    assert_eq!(Drawing::LinePoint { point: anchor, num: None }.as_str(), "Line");
    assert_eq!(Drawing::Arc.as_str(), "Arc");
    assert_eq!(Drawing::ArcPoint { point: anchor, num: Some(1) }.as_str(), "Arc");
    let two = Drawing::ArcTwoPoints {
        point_one: anchor,
        num_one: None,
        point_two: anchor,
        num_two: None,
    };
    assert_eq!(two.as_str(), "Arc");
    assert_eq!(two.tool(), Tool::Arc);
    assert_eq!(Drawing::default(), Drawing::Idle);
}

#[test]
fn arm_gives_the_waiting_state() {
    assert_eq!(Drawing::arm(Tool::Move), Drawing::Idle);
    assert_eq!(Drawing::arm(Tool::Point), Drawing::Point);
    assert_eq!(Drawing::arm(Tool::Line), Drawing::Line);
    assert_eq!(Drawing::arm(Tool::Arc), Drawing::Arc);
}

#[test]
fn reconcile_keeps_a_state_of_the_active_tool() {
    let mut state = Drawing::LinePoint { point: at(1, 2), num: Some(3) };
    state.reconcile(Tool::Line);
    assert_eq!(state, Drawing::LinePoint { point: at(1, 2), num: Some(3) });
    let mut state = Drawing::SelectPoint { point: at(1, 2), num: 3 };
    state.reconcile(Tool::Move);
    assert_eq!(state, Drawing::SelectPoint { point: at(1, 2), num: 3 });
}

#[test]
fn reconcile_into_line_reuses_the_point() {
    let mut state = Drawing::SelectPoint { point: at(1, 2), num: 3 };
    state.reconcile(Tool::Line);
    assert_eq!(state, Drawing::LinePoint { point: at(1, 2), num: Some(3) });
    let mut state = Drawing::ArcPoint { point: at(4, 5), num: None };
    state.reconcile(Tool::Line);
    assert_eq!(state, Drawing::LinePoint { point: at(4, 5), num: None });
}

#[test]
fn reconcile_into_arc_reuses_the_point() {
    let mut state = Drawing::SelectPoint { point: at(1, 2), num: 3 };
    state.reconcile(Tool::Arc);
    assert_eq!(state, Drawing::ArcPoint { point: at(1, 2), num: Some(3) });
    let mut state = Drawing::LinePoint { point: at(4, 5), num: Some(0) };
    state.reconcile(Tool::Arc);
    assert_eq!(state, Drawing::ArcPoint { point: at(4, 5), num: Some(0) });
}

#[test]
fn reconcile_into_another_tool_drops_pending_anchors() {
    let two = Drawing::ArcTwoPoints {
        point_one: at(0, 0),
        num_one: None,
        point_two: at(1, 1),
        num_two: None,
    };
    for mode in [Tool::Move, Tool::Point] {
        for pending in [
            Drawing::LinePoint { point: at(1, 2), num: None },
            Drawing::ArcPoint { point: at(1, 2), num: None },
            two,
        ] {
            let mut state = pending;
            state.reconcile(mode);
            assert_eq!(state, Drawing::Idle);
        }
    }
    let mut state = Drawing::SelectPoint { point: at(1, 2), num: 3 };
    state.reconcile(Tool::Point);
    assert_eq!(state, Drawing::SelectPoint { point: at(1, 2), num: 3 });
    let mut state = two;
    state.reconcile(Tool::Line);
    assert_eq!(state, two);
}

#[test]
fn point_tool_left_click_selects_or_creates() {
    let model = store(&[(0, 0), (100, 0)]);
    let mut state = Drawing::Idle;
    let outcome = send(&model, Tool::Point, &mut state, MouseEvent::LeftPressed, 101, 1);
    assert_eq!(outcome, (Status::Captured, Some(Message::DefPoint(at(101, 1)))));
    assert_eq!(state, Drawing::SelectPoint { point: at(101, 1), num: 1 });
    let outcome = send(&model, Tool::Point, &mut state, MouseEvent::LeftPressed, 50, 50);
    assert_eq!(outcome, (Status::Captured, Some(Message::DefPoint(at(50, 50)))));
    assert_eq!(state, Drawing::SelectPoint { point: at(50, 50), num: 2 });
}

#[test]
fn line_tool_two_clicks_make_a_segment() {
    let mut editor = VecRed::default();
    editor.update(Message::EditScale(5));
    editor.update(Message::ChangeMode(Tool::Line));
    let mut state = Drawing::Idle;

    let outcome = send(&editor.model, editor.mode, &mut state, MouseEvent::LeftPressed, 3, 4);
    assert_eq!(outcome, (Status::Captured, None));
    assert_eq!(state, Drawing::LinePoint { point: at(3, 4), num: None });
    assert!(editor.model.points.is_empty());

    let outcome = send(&editor.model, editor.mode, &mut state, MouseEvent::LeftPressed, 60, 70);
    assert_eq!(
        outcome,
        (Status::Captured, Some(Message::DefPrim(at(3, 4), at(60, 70), None)))
    );
    assert_eq!(state, Drawing::Line);

    editor.update(outcome.1.unwrap());
    assert_eq!(editor.model.points, vec![dot(3, 4), dot(60, 70)]);
    assert_eq!(editor.model.prims, vec![(0, 1, -1)]);
}

#[test]
fn switch_to_arc_reuses_the_line_anchor() {
    let model = store(&[(7, 7)]);
    let mut state = Drawing::Idle;
    send(&model, Tool::Line, &mut state, MouseEvent::LeftPressed, 40, 40);
    assert_eq!(state, Drawing::LinePoint { point: at(40, 40), num: None });

    let outcome = send(&model, Tool::Arc, &mut state, MouseEvent::LeftPressed, 80, 0);
    assert_eq!(outcome, (Status::Captured, None));
    assert_eq!(
        state,
        Drawing::ArcTwoPoints {
            point_one: at(40, 40),
            num_one: None,
            point_two: at(80, 0),
            num_two: None,
        }
    );
    let outcome = send(&model, Tool::Arc, &mut state, MouseEvent::LeftPressed, 0, 90);
    assert_eq!(
        outcome,
        (Status::Captured, Some(Message::DefPrim(at(40, 40), at(80, 0), Some(at(0, 90)))))
    );
    assert_eq!(state, Drawing::Arc);
}

#[test]
fn selected_point_becomes_a_live_line_anchor() {
    let mut model = store(&[(0, 0), (100, 0)]);
    let mut state = Drawing::Idle;
    send(&model, Tool::Point, &mut state, MouseEvent::LeftPressed, 99, 0);
    assert_eq!(state, Drawing::SelectPoint { point: at(99, 0), num: 1 });
    model.points[1].position = at(200, 200);
    let outcome = send(&model, Tool::Line, &mut state, MouseEvent::LeftPressed, 5, 5);
    assert_eq!(
        outcome,
        (Status::Captured, Some(Message::DefPrim(at(200, 200), at(5, 5), None)))
    );
    assert_eq!(state, Drawing::Line);
}

#[test]
fn anchor_whose_point_is_gone_falls_back_to_the_clicked_position() {
    let model = store(&[(0, 0)]);
    let canvas = Framework { model: &model, scale: 5, mode: Tool::Line };
    assert_eq!(canvas.default_point(at(9, 9), Some(0)), at(0, 0));
    assert_eq!(canvas.default_point(at(9, 9), Some(1)), at(9, 9));
    assert_eq!(canvas.default_point(at(9, 9), None), at(9, 9));
    let mut state = Drawing::LinePoint { point: at(9, 9), num: Some(4) };
    let outcome = send(&model, Tool::Line, &mut state, MouseEvent::LeftPressed, 50, 50);
    assert_eq!(outcome.1, Some(Message::DefPrim(at(9, 9), at(50, 50), None)));
}

#[test]
fn move_tool_left_click_begins_a_zoom_drag() {
    let model = store(&[(0, 0)]);
    let mut state = Drawing::SelectPoint { point: at(0, 0), num: 0 };
    let outcome = send(&model, Tool::Move, &mut state, MouseEvent::LeftPressed, 30, 40);
    assert_eq!(outcome, (Status::Captured, Some(Message::DefUnselect)));
    assert_eq!(state, Drawing::Scaling { starting_point: at(1030, 40) });

    let outcome = send(&model, Tool::Move, &mut state, MouseEvent::LeftReleased, 300, 400);
    assert_eq!(
        outcome,
        (
            Status::Captured,
            Some(Message::SetZoom { anchor: at(1030, 40), corner: at(300, 400), force: false })
        )
    );
    assert_eq!(state, Drawing::Idle);
}

#[test]
fn release_without_a_drag_does_nothing() {
    let model = store(&[(0, 0)]);
    let mut state = Drawing::LinePoint { point: at(1, 1), num: None };
    let outcome = send(&model, Tool::Line, &mut state, MouseEvent::LeftReleased, 300, 400);
    assert_eq!(outcome, (Status::Captured, None));
    assert_eq!(state, Drawing::LinePoint { point: at(1, 1), num: None });
}

#[test]
fn right_click_on_empty_space_does_nothing() {
    let model = store(&[(0, 0)]);
    let mut state = Drawing::LinePoint { point: at(1, 1), num: None };
    let outcome = send(&model, Tool::Line, &mut state, MouseEvent::RightPressed, 300, 400);
    assert_eq!(outcome, (Status::Captured, None));
    assert_eq!(state, Drawing::LinePoint { point: at(1, 1), num: None });
    let mut state = Drawing::Idle;
    let outcome = send(&model, Tool::Move, &mut state, MouseEvent::RightPressed, 300, 400);
    assert_eq!(outcome, (Status::Captured, None));
    assert_eq!(state, Drawing::Idle);
}

#[test]
fn right_click_on_a_point_selects_it() {
    let model = store(&[(0, 0), (100, 0)]);
    let mut state = Drawing::Idle;
    let outcome = send(&model, Tool::Move, &mut state, MouseEvent::RightPressed, 98, 1);
    assert_eq!(outcome, (Status::Captured, Some(Message::DefPoint(at(98, 1)))));
    assert_eq!(state, Drawing::SelectPoint { point: at(100, 0), num: 1 });
}

#[test]
fn right_click_on_a_point_finishes_a_line_there() {
    let model = store(&[(0, 0), (100, 0)]);
    let mut state = Drawing::LinePoint { point: at(3, 3), num: Some(0) };
    let outcome = send(&model, Tool::Line, &mut state, MouseEvent::RightPressed, 98, 1);
    assert_eq!(
        outcome,
        (Status::Captured, Some(Message::DefPrim(at(0, 0), at(100, 0), None)))
    );
    assert_eq!(state, Drawing::Line);
}

#[test]
fn right_click_on_points_builds_an_arc() {
    let model = store(&[(0, 0), (100, 0), (0, 100)]);
    let mut state = Drawing::ArcPoint { point: at(50, 50), num: None };
    let outcome = send(&model, Tool::Arc, &mut state, MouseEvent::RightPressed, 98, 1);
    assert_eq!(outcome, (Status::Captured, None));
    assert_eq!(
        state,
        Drawing::ArcTwoPoints {
            point_one: at(50, 50),
            num_one: None,
            point_two: at(100, 0),
            num_two: Some(1),
        }
    );
    let outcome = send(&model, Tool::Arc, &mut state, MouseEvent::RightPressed, 1, 99);
    assert_eq!(
        outcome,
        (Status::Captured, Some(Message::DefPrim(at(50, 50), at(100, 0), Some(at(0, 100)))))
    );
    assert_eq!(state, Drawing::Arc);
}

#[test]
fn other_mouse_events_are_captured_without_effect() {
    let model = store(&[(0, 0)]);
    let mut state = Drawing::ArcPoint { point: at(1, 1), num: None };
    let outcome = send(&model, Tool::Arc, &mut state, MouseEvent::Other, 0, 0);
    assert_eq!(outcome, (Status::Captured, None));
    assert_eq!(state, Drawing::ArcPoint { point: at(1, 1), num: None });
}

#[test]
fn events_off_the_canvas_are_ignored_but_reconcile() {
    let model = store(&[(0, 0)]);
    let canvas = Framework { model: &model, scale: 5, mode: Tool::Move };
    let mut state = Drawing::LinePoint { point: at(1, 1), num: None };
    let outcome = canvas.update(&mut state, Event::Mouse(MouseEvent::LeftPressed), None);
    assert_eq!(outcome, (Status::Ignored, None));
    assert_eq!(state, Drawing::Idle);
    let mut state = Drawing::ArcPoint { point: at(1, 1), num: None };
    let outcome = canvas.update(&mut state, Event::Other, Some(cursor(0, 0)));
    assert_eq!(outcome, (Status::Ignored, None));
    assert_eq!(state, Drawing::Idle);
}

#[test]
fn simple_mouse_events_does_not_reconcile() {
    let model = store(&[(0, 0)]);
    let canvas = Framework { model: &model, scale: 5, mode: Tool::Move };
    let mut state = Drawing::LinePoint { point: at(1, 1), num: None };
    let outcome = canvas.simple_mouse_events(&mut state, MouseEvent::LeftReleased, cursor(0, 0));
    assert_eq!(outcome, (Status::Captured, None));
    assert_eq!(state, Drawing::LinePoint { point: at(1, 1), num: None });
    let outcome = canvas.simple_mouse_events(&mut state, MouseEvent::LeftPressed, cursor(0, 0));
    assert_eq!(outcome, (Status::Captured, Some(Message::DefUnselect)));
    assert_eq!(state, Drawing::Scaling { starting_point: at(1000, 0) });
}
