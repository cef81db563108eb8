use vecred::model::{Model, Point, Position};
use vecred::undo_manager::{apply_inverse, UndoManager, UndoRecord};

fn dot(x: i32, y: i32) -> Point {
    Point { position: Position { x, y }, radius: 20 }
}

fn mutated(index: usize) -> UndoRecord {
    UndoRecord::PointMutated { old_value: dot(index as i32, 0), index }
}

#[test]
fn default_journal_is_empty_with_max_len_25() {
    let journal = UndoManager::default();
    assert_eq!(journal.len(), 0);
    assert_eq!(journal.max_len, 25);
}

#[test]
fn undo_on_empty_journal_is_a_no_op() {
    let mut journal = UndoManager::default();
    assert_eq!(journal.undo(), None);
    assert_eq!(journal.len(), 0);
}

#[test]
fn undo_returns_records_last_in_first_out() {
    let mut journal = UndoManager::default();
    journal.pushed_point();
    journal.pushed_prim();
    journal.deleted_prim((0, 1, -1), 3);
    journal.deleted_point(dot(1, 2), 4);
    journal.changed_point(dot(5, 6), 7);
    assert_eq!(journal.len(), 5);
    assert_eq!(journal.undo(), Some(UndoRecord::PointMutated { old_value: dot(5, 6), index: 7 }));
    assert_eq!(journal.undo(), Some(UndoRecord::PointRemoved { point: dot(1, 2), index: 4 }));
    assert_eq!(
        journal.undo(),
        Some(UndoRecord::PrimitiveRemoved { primitive: (0, 1, -1), index: 3 })
    );
    assert_eq!(journal.undo(), Some(UndoRecord::PrimitiveAdded));
    assert_eq!(journal.undo(), Some(UndoRecord::PointAdded));
    assert_eq!(journal.undo(), None);
}

#[test]
fn journal_keeps_the_most_recent_records() {
    let mut journal = UndoManager::default();
    for index in 0..40 {
        journal.record(mutated(index));
        assert!(journal.len() < 25);
    }
    assert_eq!(journal.len(), 24);
    let expected: Vec<UndoRecord> = (16..40).map(mutated).collect();
    assert_eq!(journal.undo_stack, expected);
    for index in (16..40).rev() {
        assert_eq!(journal.undo(), Some(mutated(index)));
    }
    assert_eq!(journal.undo(), None);
}

#[test]
fn journal_below_its_bound_keeps_everything() {
    let mut journal = UndoManager::new(10);
    for index in 0..9 {
        journal.record(mutated(index));
    }
    assert_eq!(journal.len(), 9);
    journal.record(mutated(9));
    assert_eq!(journal.len(), 9);
    assert_eq!(journal.undo_stack[0], mutated(1));
}

#[test]
fn journal_of_max_len_one_or_zero_keeps_nothing() {
    let mut journal = UndoManager::new(1);
    journal.record(mutated(0));
    assert_eq!(journal.len(), 0);
    let mut journal = UndoManager::new(0);
    journal.record(mutated(0));
    assert_eq!(journal.len(), 0);
}

#[test]
fn record_all_records_in_order() {
    let mut journal = UndoManager::new(4);
    journal.record_all(&vec![mutated(0), mutated(1)]);
    assert_eq!(journal.undo_stack, vec![mutated(0), mutated(1)]);
    journal.record_all(&vec![mutated(2), mutated(3), mutated(4)]);
    assert_eq!(journal.undo_stack, vec![mutated(2), mutated(3), mutated(4)]);
}

#[test]
fn clear_empties_the_journal() {
    let mut journal = UndoManager::default();
    journal.pushed_point();
    journal.pushed_prim();
    journal.clear();
    assert_eq!(journal.len(), 0);
    assert_eq!(journal.max_len, 25);
    assert_eq!(journal.undo(), None);
}

fn sample() -> Model {
    let mut model = Model::new();
    model.insert_point(dot(0, 0));
    model.insert_point(dot(10, 0));
    model.insert_point(dot(20, 0));
    assert_eq!(model.insert_primitive(0, 1, -1), Ok(()));
    model
}

#[test]
fn inverse_of_point_added_drops_the_last_point() {
    let mut model = sample();
    assert!(apply_inverse(&mut model, UndoRecord::PointAdded));
    assert_eq!(model.points, vec![dot(0, 0), dot(10, 0)]);
}

#[test]
fn inverse_of_point_added_is_refused_while_the_point_is_referenced() {
    let mut model = sample();
    assert_eq!(model.insert_primitive(1, 2, -1), Ok(()));
    assert!(!apply_inverse(&mut model, UndoRecord::PointAdded));
    assert_eq!(model.points.len(), 3);
    let mut empty = Model::new();
    assert!(!apply_inverse(&mut empty, UndoRecord::PointAdded));
}

#[test]
fn inverse_of_primitive_added_drops_the_last_primitive() {
    let mut model = sample();
    assert!(apply_inverse(&mut model, UndoRecord::PrimitiveAdded));
    assert!(model.prims.is_empty());
    assert!(!apply_inverse(&mut model, UndoRecord::PrimitiveAdded));
}

#[test]
fn inverse_of_primitive_removed_inserts_at_its_position() {
    let mut model = sample();
    assert_eq!(model.insert_primitive(1, 2, -1), Ok(()));
    let record = UndoRecord::PrimitiveRemoved { primitive: (2, 0, 1), index: 1 };
    assert!(apply_inverse(&mut model, record));
    assert_eq!(model.prims, vec![(0, 1, -1), (2, 0, 1), (1, 2, -1)]);
}

#[test]
fn inverse_of_primitive_removed_is_refused_when_it_would_dangle() {
    let mut model = sample();
    let dangling = UndoRecord::PrimitiveRemoved { primitive: (0, 3, -1), index: 0 };
    assert!(!apply_inverse(&mut model, dangling));
    let repeated = UndoRecord::PrimitiveRemoved { primitive: (0, 1, 1), index: 0 };
    assert!(!apply_inverse(&mut model, repeated));
    let misplaced = UndoRecord::PrimitiveRemoved { primitive: (0, 2, -1), index: 2 };
    assert!(!apply_inverse(&mut model, misplaced));
    assert_eq!(model.prims, vec![(0, 1, -1)]);
}

#[test]
fn inverse_of_point_removed_swaps_the_point_back() {
    let mut model = sample();
    let record = UndoRecord::PointRemoved { point: dot(5, 5), index: 0 };
    assert!(apply_inverse(&mut model, record));
    assert_eq!(model.points, vec![dot(5, 5), dot(10, 0), dot(20, 0), dot(0, 0)]);
    assert_eq!(model.prims, vec![(3, 1, -1)]);
    let appended = UndoRecord::PointRemoved { point: dot(6, 6), index: 4 };
    assert!(apply_inverse(&mut model, appended));
    assert_eq!(model.points.len(), 5);
    assert_eq!(model.points[4], dot(6, 6));
    let misplaced = UndoRecord::PointRemoved { point: dot(7, 7), index: 6 };
    assert!(!apply_inverse(&mut model, misplaced));
    assert_eq!(model.points.len(), 5);
}

#[test]
fn inverse_of_point_mutated_writes_the_old_value_back() {
    let mut model = sample();
    let record = UndoRecord::PointMutated { old_value: dot(-1, -2), index: 1 };
    assert!(apply_inverse(&mut model, record));
    assert_eq!(model.points[1], dot(-1, -2));
    let misplaced = UndoRecord::PointMutated { old_value: dot(-1, -2), index: 3 };
    assert!(!apply_inverse(&mut model, misplaced));
}
