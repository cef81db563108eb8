use vecred::drawing::Tool;
use vecred::editor::VecRed;
use vecred::message::Message;
use vecred::model::{Model, Point, Position};
use vecred::undo_manager::{apply_inverse, UndoRecord};

fn at(x: i32, y: i32) -> Position {
    Position { x, y }
}

fn dot(x: i32, y: i32) -> Point {
    Point { position: at(x, y), radius: 20 }
}

fn editor() -> VecRed {
    let mut editor = VecRed::default();
    editor.update(Message::EditScale(5));
    editor
}

#[test]
fn default_editor() {
    let editor = VecRed::default();
    assert!(editor.model.points.is_empty());
    assert!(editor.model.prims.is_empty());
    assert_eq!(editor.journal.len(), 0);
    assert_eq!(editor.journal.max_len, 25);
    assert_eq!(editor.chosen_point, None);
    assert_eq!(editor.mode, Tool::Move);
    assert_eq!(editor.scale, 1);
    assert_eq!(editor.default_circle, 20);
}

#[test]
fn settings_messages() {
    let mut editor = VecRed::default();
    editor.update(Message::ChangeMode(Tool::Arc));
    editor.update(Message::EditScale(7));
    editor.update(Message::EditCircle(33));
    assert_eq!(editor.mode, Tool::Arc);
    assert_eq!(editor.scale, 7);
    assert_eq!(editor.default_circle, 33);
    editor.update(Message::DefPoint(at(1, 1)));
    assert_eq!(editor.model.points, vec![Point { position: at(1, 1), radius: 33 }]);
}

#[test]
fn def_point_creates_then_finds() {
    let mut editor = editor();
    editor.update(Message::DefPoint(at(10, 10)));
    assert_eq!(editor.model.points, vec![dot(10, 10)]);
    assert_eq!(editor.chosen_point, Some((at(10, 10), 20, 0)));
    assert_eq!(editor.journal.undo_stack, vec![UndoRecord::PointAdded]);

    editor.update(Message::DefPoint(at(12, 11)));
    assert_eq!(editor.model.points, vec![dot(10, 10)]);
    assert_eq!(editor.chosen_point, Some((at(10, 10), 20, 0)));
    assert_eq!(editor.journal.len(), 1);

    editor.update(Message::DefPoint(at(20, 10)));
    assert_eq!(editor.model.points, vec![dot(10, 10), dot(20, 10)]);
    assert_eq!(editor.chosen_point, Some((at(20, 10), 20, 1)));
    assert_eq!(editor.journal.len(), 2);
}

#[test]
fn def_prim_finds_or_creates_its_points() {
    let mut editor = editor();
    editor.update(Message::DefPoint(at(0, 0)));
    editor.update(Message::DefPrim(at(1, 1), at(50, 0), None));
    assert_eq!(editor.model.points, vec![dot(0, 0), dot(50, 0)]);
    assert_eq!(editor.model.prims, vec![(0, 1, -1)]);
    assert_eq!(editor.chosen_point, None);
    assert_eq!(
        editor.journal.undo_stack,
        vec![UndoRecord::PointAdded, UndoRecord::PointAdded, UndoRecord::PrimitiveAdded]
    );
    editor.update(Message::DefPrim(at(50, 1), at(0, 1), Some(at(0, 50))));
    assert_eq!(editor.model.points, vec![dot(0, 0), dot(50, 0), dot(0, 50)]);
    assert_eq!(editor.model.prims, vec![(0, 1, -1), (1, 0, 2)]);
}

#[test]
fn def_prim_between_the_same_point_builds_nothing() {
    let mut editor = editor();
    editor.update(Message::DefPrim(at(0, 0), at(3, 0), None));
    assert_eq!(editor.model.points, vec![dot(0, 0)]);
    assert!(editor.model.prims.is_empty());
    assert_eq!(editor.journal.undo_stack, vec![UndoRecord::PointAdded]);

    editor.update(Message::DefPrim(at(0, 0), at(40, 0), Some(at(41, 1))));
    assert_eq!(editor.model.points, vec![dot(0, 0), dot(40, 0)]);
    assert!(editor.model.prims.is_empty());
    assert_eq!(
        editor.journal.undo_stack,
        vec![UndoRecord::PointAdded, UndoRecord::PointAdded]
    );
}

#[test]
fn add_point_returns_the_index() {
    let mut editor = editor();
    assert_eq!(editor.add_point(at(0, 0)), 0);
    assert_eq!(editor.add_point(at(100, 0)), 1);
    assert_eq!(editor.add_point(at(1, 0)), 0);
    assert_eq!(editor.add_point(at(99, 0)), 1);
    assert_eq!(editor.model.points.len(), 2);
    assert_eq!(editor.journal.len(), 2);
}

#[test]
fn add_prim_rejects_degenerate_and_dangling() {
    let mut editor = editor();
    editor.add_point(at(0, 0));
    editor.add_point(at(100, 0));
    editor.add_point(at(0, 100));
    let recorded = editor.journal.undo_stack.clone();
    assert!(!editor.add_prim(1, 1, None));
    assert!(!editor.add_prim(0, 1, Some(0)));
    assert!(!editor.add_prim(0, 1, Some(1)));
    assert!(!editor.add_prim(0, 3, None));
    assert!(!editor.add_prim(0, 1, Some(3)));
    assert!(!editor.add_prim(usize::MAX, 1, None));
    assert!(editor.model.prims.is_empty());
    assert_eq!(editor.journal.undo_stack, recorded);
    assert!(editor.add_prim(0, 1, None));
    assert!(editor.add_prim(2, 1, Some(0)));
    assert_eq!(editor.model.prims, vec![(0, 1, -1), (2, 1, 0)]);
    assert_eq!(editor.journal.len(), 5);
}

#[test]
fn unselect_drops_the_selection() {
    let mut editor = editor();
    editor.update(Message::DefPoint(at(0, 0)));
    editor.update(Message::DefUnselect);
    assert_eq!(editor.chosen_point, None);
}

#[test]
fn change_point_and_apply() {
    let mut editor = editor();
    editor.update(Message::DefPoint(at(0, 0)));
    editor.update(Message::ChangePoint(0, 7));
    editor.update(Message::ChangePoint(1, 8));
    editor.update(Message::ChangePoint(2, 9));
    editor.update(Message::ChangePoint(3, 10));
    assert_eq!(editor.chosen_point, Some((at(7, 8), 9, 0)));
    assert_eq!(editor.model.points, vec![dot(0, 0)]);
    editor.update(Message::ChangeApply);
    assert_eq!(editor.model.points, vec![Point { position: at(7, 8), radius: 9 }]);
    assert_eq!(
        editor.journal.undo_stack,
        vec![UndoRecord::PointAdded, UndoRecord::PointMutated { old_value: dot(0, 0), index: 0 }]
    );
    editor.update(Message::ChangeApply);
    assert_eq!(editor.journal.len(), 2);
    editor.update(Message::Undo);
    assert_eq!(editor.model.points, vec![dot(0, 0)]);
    assert_eq!(editor.mode, Tool::Move);
}

#[test]
fn change_without_selection_does_nothing() {
    let mut editor = editor();
    editor.update(Message::ChangePoint(0, 7));
    editor.update(Message::ChangeApply);
    editor.update(Message::DeletePoint);
    assert_eq!(editor.chosen_point, None);
    assert_eq!(editor.journal.len(), 0);
    editor.update(Message::ChangeMode(Tool::Line));
    editor.update(Message::DeletePoint);
    assert_eq!(editor.mode, Tool::Line);
}

#[test]
fn stale_selection_is_dropped() {
    let mut editor = editor();
    editor.update(Message::DefPoint(at(0, 0)));
    editor.update(Message::Undo);
    assert!(editor.model.points.is_empty());
    assert_eq!(editor.chosen_point, Some((at(0, 0), 20, 0)));
    editor.update(Message::ChangeApply);
    assert!(editor.model.points.is_empty());
    editor.update(Message::ChangeMode(Tool::Arc));
    editor.update(Message::DeletePoint);
    assert_eq!(editor.chosen_point, None);
    assert_eq!(editor.mode, Tool::Move);
    assert_eq!(editor.journal.len(), 0);
}

#[test]
fn delete_point_and_undo_restore_the_drawing() {
    let mut editor = editor();
    editor.update(Message::DefPrim(at(0, 0), at(100, 0), None));
    editor.update(Message::DefPrim(at(100, 0), at(0, 100), None));
    editor.update(Message::DefPrim(at(0, 100), at(0, 0), Some(at(200, 200))));
    let points = editor.model.points.clone();
    let prims = editor.model.prims.clone();
    assert_eq!(prims, vec![(0, 1, -1), (1, 2, -1), (2, 0, 3)]);
    let recorded = editor.journal.len();

    editor.update(Message::ChangeMode(Tool::Point));
    editor.update(Message::DefPoint(at(0, 0)));
    editor.update(Message::DeletePoint);
    assert_eq!(editor.mode, Tool::Move);
    assert_eq!(editor.chosen_point, None);
    assert_eq!(editor.model.points, vec![dot(200, 200), dot(100, 0), dot(0, 100)]);
    assert_eq!(editor.model.prims, vec![(1, 2, -1)]);
    assert_eq!(editor.journal.len(), recorded + 3);
    assert!(editor.model.is_well_formed());

    editor.update(Message::Undo);
    editor.update(Message::Undo);
    editor.update(Message::Undo);
    assert_eq!(editor.model.points, points);
    assert_eq!(editor.model.prims, prims);
    assert_eq!(editor.journal.len(), recorded);
}

#[test]
fn undo_reverses_creation_step_by_step() {
    let mut editor = editor();
    editor.update(Message::DefPrim(at(0, 0), at(100, 0), None));
    editor.update(Message::ChangeMode(Tool::Line));
    editor.update(Message::Undo);
    assert_eq!(editor.mode, Tool::Move);
    assert!(editor.model.prims.is_empty());
    assert_eq!(editor.model.points.len(), 2);
    editor.update(Message::Undo);
    assert_eq!(editor.model.points, vec![dot(0, 0)]);
    editor.update(Message::Undo);
    assert!(editor.model.points.is_empty());
    editor.update(Message::Undo);
    assert!(editor.model.points.is_empty());
    assert_eq!(editor.journal.len(), 0);
}

#[test]
fn mutations_beyond_the_journal_bound_are_lost() {
    let mut editor = editor();
    for index in 0..30 {
        editor.update(Message::DefPoint(at(100 * index, 0)));
    }
    assert_eq!(editor.model.points.len(), 30);
    assert_eq!(editor.journal.len(), 24);
    for _ in 0..40 {
        editor.update(Message::Undo);
    }
    assert_eq!(editor.model.points.len(), 6);
    assert_eq!(editor.journal.len(), 0);
}

#[test]
fn clear_all_empties_drawing_and_journal() {
    let mut editor = editor();
    editor.update(Message::DefPrim(at(0, 0), at(100, 0), None));
    editor.update(Message::DefPoint(at(0, 0)));
    editor.update(Message::ChangeMode(Tool::Arc));
    editor.update(Message::ClearAll);
    assert!(editor.model.points.is_empty());
    assert!(editor.model.prims.is_empty());
    assert_eq!(editor.journal.len(), 0);
    assert_eq!(editor.chosen_point, None);
    assert_eq!(editor.mode, Tool::Arc);
    editor.update(Message::Undo);
    assert!(editor.model.points.is_empty());
}

#[test]
fn set_zoom_is_left_to_the_view() {
    let mut editor = editor();
    editor.update(Message::DefPoint(at(0, 0)));
    editor.update(Message::SetZoom { anchor: at(0, 0), corner: at(10, 10), force: true });
    assert_eq!(editor.model.points, vec![dot(0, 0)]);
    assert_eq!(editor.chosen_point, Some((at(0, 0), 20, 0)));
    assert_eq!(editor.journal.len(), 1);
    assert_eq!(editor.mode, Tool::Move);
}

#[test]
fn import_model_replaces_the_drawing_and_clears_the_journal() {
    let mut editor = editor();
    editor.update(Message::DefPrim(at(0, 0), at(100, 0), None));
    editor.update(Message::ChangeMode(Tool::Line));
    editor.update(Message::DefPoint(at(0, 0)));
    let loaded = Model { points: vec![dot(1, 1), dot(2, 2), dot(3, 3)], prims: vec![(0, 2, 1)] };
    assert!(editor.import_model(loaded));
    assert_eq!(editor.model.points, vec![dot(1, 1), dot(2, 2), dot(3, 3)]);
    assert_eq!(editor.model.prims, vec![(0, 2, 1)]);
    assert_eq!(editor.journal.len(), 0);
    assert_eq!(editor.chosen_point, None);
    assert_eq!(editor.mode, Tool::Move);
}

#[test]
fn import_model_refuses_dangling_references() {
    let mut editor = editor();
    editor.update(Message::DefPrim(at(0, 0), at(100, 0), None));
    let broken = Model { points: vec![dot(1, 1)], prims: vec![(0, 1, -1)] };
    assert!(!editor.import_model(broken));
    assert_eq!(editor.model.points, vec![dot(0, 0), dot(100, 0)]);
    assert_eq!(editor.model.prims, vec![(0, 1, -1)]);
    assert_eq!(editor.journal.len(), 3);
}

/// Whether every record of the journal can be reversed when its turn
/// comes.
fn journal_fits(editor: &VecRed) -> bool {
    let mut model = editor.model.clone();
    editor.journal.undo_stack.iter().rev().all(|record| apply_inverse(&mut model, *record))
}

#[test]
fn journal_always_fits_the_drawing() {
    let mut editor = editor();
    let mut seed: u32 = 2024;
    for step in 0..600 {
        seed = seed.wrapping_mul(1664525).wrapping_add(1013904223);
        let pick = (seed >> 12) as i32;
        let place = at(10 * (pick % 9), 10 * ((pick / 9) % 9));
        let other = at(10 * ((pick / 81) % 9), 10 * ((pick / 729) % 9));
        let message = match step % 11 {
            0 | 1 => Message::DefPoint(place),
            2 | 3 => Message::DefPrim(place, other, None),
            4 => Message::DefPrim(place, other, Some(at(10 * (pick % 7), 40))),
            5 => Message::ChangePoint((pick % 3) as usize, pick % 50),
            6 => Message::ChangeApply,
            7 => Message::DeletePoint,
            8 | 9 => Message::Undo,
            _ => Message::DefUnselect,
        };
        editor.update(message);
        assert!(editor.model.is_well_formed());
        assert!(editor.journal.len() < 25);
        assert!(journal_fits(&editor));
    }
    assert!(!editor.model.points.is_empty());
}
