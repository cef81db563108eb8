//! The editor: it applies messages to the store and reports every
//! mutation to the journal.

use vstd::prelude::*;
use crate::drawing::Tool;
use crate::message::Message;
use crate::model::valid_primitive;
use crate::model::Model;
use crate::model::ModelView;
use crate::model::Point;
use crate::model::Position;
use crate::model::Primitive;
use crate::model::SENTINEL;
use crate::model::lemma_removal_keeps_integrity;
use crate::model::references;
use crate::undo_manager::applicable;
use crate::undo_manager::apply_inverse;
use crate::undo_manager::inverse;
use crate::undo_manager::lemma_applicable_joined;
use crate::undo_manager::lemma_applicable_without_oldest;
use crate::undo_manager::lemma_recorded_all_is_an_end;
use crate::undo_manager::can_apply;
use crate::undo_manager::lemma_journal_bound;
use crate::undo_manager::lemma_removal_is_undone;
use crate::undo_manager::lemma_undone_keeps_integrity;
use crate::undo_manager::undone_all;
use crate::undo_manager::recorded;
use crate::undo_manager::recorded_all;
use crate::undo_manager::undone;
use crate::undo_manager::UndoManager;
use crate::undo_manager::UndoRecord;

verus! {

/// The pending edit of the selected point: the position and the radius
/// that it is to get, and its index.
pub type Chosen = (Position, i32, usize);

/// The mathematical content of a [`VecRed`].
pub struct VecRedView {
    pub journal: Seq<UndoRecord>,
    pub max_len: usize,
    pub model: ModelView,
    pub chosen_point: Option<Chosen>,
    pub mode: Tool,
    pub scale: u32,
    pub default_circle: i32,
}

impl VecRedView {
    /// The index of the point that stands for `position`: that of the
    /// first stored point within the hit tolerance, else the one that a
    /// new point gets.
    pub open spec fn found(self, position: Position) -> int {
        self.model.hit_test(position, 2 * self.scale)
    }

    /// The editor after the point that stands for `position` has been
    /// found or, where there was none, appended and recorded.
    pub open spec fn with_point(self, position: Position) -> VecRedView {
        if self.found(position) == self.model.points.len() {
            VecRedView {
                journal: recorded(self.journal, UndoRecord::PointAdded, self.max_len as int),
                model: self.model.insert_point(
                    Point { position, radius: self.default_circle },
                ),
                ..self
            }
        } else {
            self
        }
    }

    /// The primitive over the points at `a`, `b` and, if given, `c`.
    pub open spec fn primitive_over(a: int, b: int, c: Option<int>) -> Primitive {
        (
            a as i32,
            b as i32,
            match c {
                Some(index) => index as i32,
                None => SENTINEL,
            },
        )
    }

    /// Whether the primitive over the points at `a`, `b` and, if given,
    /// `c` can be stored: the indices are those of stored points, are
    /// within what a primitive can hold, and no two of them are equal.
    pub open spec fn takes_primitive(self, a: int, b: int, c: Option<int>) -> bool {
        &&& a <= i32::MAX
        &&& b <= i32::MAX
        &&& c matches Some(index) ==> 0 <= index <= i32::MAX
        &&& valid_primitive(Self::primitive_over(a, b, c), self.model.points.len() as int)
    }

    /// The editor after the primitive over the points at `a`, `b` and,
    /// if given, `c` has been appended and recorded; unchanged where the
    /// primitive cannot be stored.
    pub open spec fn with_primitive(self, a: int, b: int, c: Option<int>) -> VecRedView {
        if self.takes_primitive(a, b, c) {
            VecRedView {
                journal: recorded(self.journal, UndoRecord::PrimitiveAdded, self.max_len as int),
                model: self.model.insert_primitive(Self::primitive_over(a, b, c)),
                ..self
            }
        } else {
            self
        }
    }

    /// Whether the pending edit would change the selected point: a point
    /// is selected, it is stored, and it does not hold the pending value
    /// yet.
    pub open spec fn changes_point(self) -> bool {
        self.chosen_point matches Some((position, radius, index)) && index
            < self.model.points.len() && self.model.points[index as int] != (Point {
            position,
            radius,
        })
    }

    /// After [`Message::DefPoint`].
    pub open spec fn def_point(self, position: Position) -> VecRedView {
        let number = self.found(position);
        let next = self.with_point(position);
        VecRedView {
            chosen_point: Some(
                (next.model.points[number].position, next.model.points[number].radius, number as usize),
            ),
            ..next
        }
    }

    /// After [`Message::DefPrim`].
    pub open spec fn def_prim(self, first: Position, second: Position, third: Option<
        Position,
    >) -> VecRedView {
        let a = self.found(first);
        let one = self.with_point(first);
        let b = one.found(second);
        let two = one.with_point(second);
        let next = match third {
            None => two.with_primitive(a, b, None),
            Some(position) => two.with_point(position).with_primitive(
                a,
                b,
                Some(two.found(position)),
            ),
        };
        VecRedView { chosen_point: None, ..next }
    }

    /// After [`Message::ChangePoint`].
    pub open spec fn change_point(self, num: usize, value: i32) -> VecRedView {
        match self.chosen_point {
            Some((position, radius, index)) => VecRedView {
                chosen_point: Some(
                    if num == 0 {
                        (Position { x: value, y: position.y }, radius, index)
                    } else if num == 1 {
                        (Position { x: position.x, y: value }, radius, index)
                    } else if num == 2 {
                        (position, value, index)
                    } else {
                        (position, radius, index)
                    },
                ),
                ..self
            },
            None => self,
        }
    }

    /// After [`Message::ChangeApply`].
    pub open spec fn change_apply(self) -> VecRedView {
        match self.chosen_point {
            Some((position, radius, index)) if self.changes_point() => VecRedView {
                journal: recorded(
                    self.journal,
                    UndoRecord::PointMutated { old_value: self.model.points[index as int], index },
                    self.max_len as int,
                ),
                model: ModelView {
                    points: self.model.points.update(index as int, Point { position, radius }),
                    prims: self.model.prims,
                },
                ..self
            },
            _ => self,
        }
    }

    /// After [`Message::DeletePoint`].
    pub open spec fn delete_point(self) -> VecRedView {
        match self.chosen_point {
            Some((_, _, index)) => if index < self.model.points.len() {
                VecRedView {
                    journal: recorded_all(
                        self.journal,
                        self.model.removal_records(index as int),
                        self.max_len as int,
                    ),
                    model: self.model.remove_point(index as int),
                    chosen_point: None,
                    mode: Tool::Move,
                    ..self
                }
            } else {
                VecRedView { chosen_point: None, mode: Tool::Move, ..self }
            },
            None => self,
        }
    }

    /// After [`Message::Undo`].
    pub open spec fn undo(self) -> VecRedView {
        if self.journal.len() == 0 {
            VecRedView { mode: Tool::Move, ..self }
        } else {
            VecRedView {
                journal: self.journal.drop_last(),
                model: undone(self.model, self.journal.last()),
                mode: Tool::Move,
                ..self
            }
        }
    }

    /// After [`Message::ClearAll`].
    pub open spec fn clear_all(self) -> VecRedView {
        VecRedView {
            journal: Seq::empty(),
            model: ModelView { points: Seq::empty(), prims: Seq::empty() },
            chosen_point: None,
            ..self
        }
    }

    /// Whether the journal fits the drawing: the drawing has referential
    /// integrity, and every record of the journal can be reversed when
    /// its turn comes.
    pub open spec fn consistent(self) -> bool {
        self.model.well_formed() && applicable(self.model, self.journal)
    }

    /// What [`VecRedView::with_point`] records: that a point was added,
    /// where none was found.
    pub open spec fn point_records(self, position: Position) -> Seq<UndoRecord> {
        if self.found(position) == self.model.points.len() {
            seq![UndoRecord::PointAdded]
        } else {
            Seq::empty()
        }
    }

    /// What [`VecRedView::with_primitive`] records: that a primitive was
    /// added, where one was.
    pub open spec fn primitive_records(self, a: int, b: int, c: Option<int>) -> Seq<UndoRecord> {
        if self.takes_primitive(a, b, c) {
            seq![UndoRecord::PrimitiveAdded]
        } else {
            Seq::empty()
        }
    }

    /// The records that `message` gives to the journal, in the order in
    /// which they are recorded.
    pub open spec fn records_of(self, message: Message) -> Seq<UndoRecord> {
        match message {
            Message::DefPoint(position) => self.point_records(position),
            Message::DefPrim(first, second, third) => {
                let one = self.with_point(first);
                let two = one.with_point(second);
                let a = self.found(first);
                let b = one.found(second);
                match third {
                    None => self.point_records(first) + one.point_records(second)
                        + two.primitive_records(a, b, None),
                    Some(position) => self.point_records(first) + one.point_records(second)
                        + two.point_records(position) + two.with_point(position).primitive_records(
                        a,
                        b,
                        Some(two.found(position)),
                    ),
                }
            },
            Message::ChangeApply => match self.chosen_point {
                Some((_, _, index)) if self.changes_point() => seq![
                    UndoRecord::PointMutated { old_value: self.model.points[index as int], index },
                ],
                _ => Seq::empty(),
            },
            Message::DeletePoint => match self.chosen_point {
                Some((_, _, index)) if index < self.model.points.len() => {
                    self.model.removal_records(index as int)
                },
                _ => Seq::empty(),
            },
            _ => Seq::empty(),
        }
    }

    /// The editor after `message`.
    pub open spec fn update(self, message: Message) -> VecRedView {
        match message {
            Message::ChangeMode(mode) => VecRedView { mode, ..self },
            Message::ClearAll => self.clear_all(),
            Message::Undo => self.undo(),
            Message::DefPoint(position) => self.def_point(position),
            Message::DefPrim(first, second, third) => self.def_prim(first, second, third),
            Message::DefUnselect => VecRedView { chosen_point: None, ..self },
            Message::ChangePoint(num, value) => self.change_point(num, value),
            Message::ChangeApply => self.change_apply(),
            Message::EditScale(scale) => VecRedView { scale, ..self },
            Message::EditCircle(default_circle) => VecRedView { default_circle, ..self },
            Message::DeletePoint => self.delete_point(),
            Message::SetZoom { .. } => self,
        }
    }
}

/// A primitive of which two indices are equal is never stored and never
/// recorded: the editor stays as it is.
pub proof fn lemma_degenerate_is_rejected(editor: VecRedView, a: int, b: int, c: Option<int>)
    requires
        a == b || c == Some(a) || c == Some(b),
    ensures
        !editor.takes_primitive(a, b, c),
        editor.with_primitive(a, b, c) == editor,
{
}

/// No message breaks referential integrity.
pub proof fn lemma_update_keeps_integrity(editor: VecRedView, message: Message)
    requires
        editor.model.well_formed(),
    ensures
        editor.update(message).model.well_formed(),
{
    match message {
        Message::Undo => {
            if editor.journal.len() > 0 {
                lemma_undone_keeps_integrity(editor.model, editor.journal.last());
            }
        },
        Message::DefPrim(first, second, third) => {
            let one = editor.with_point(first);
            let two = one.with_point(second);
            assert(two.model.well_formed());
            match third {
                Some(position) => {
                    assert(two.with_point(position).model.well_formed());
                },
                None => {},
            }
        },
        Message::DeletePoint => {
            match editor.chosen_point {
                Some((_, _, index)) => {
                    if index < editor.model.points.len() {
                        lemma_removal_keeps_integrity(editor.model, index as int);
                    }
                },
                None => {},
            }
        },
        _ => {},
    }
}

/// The editor after each of `messages`, the first of them first.
pub open spec fn updated_all(editor: VecRedView, messages: Seq<Message>) -> VecRedView
    decreases messages.len(),
{
    if messages.len() == 0 {
        editor
    } else {
        updated_all(editor, messages.drop_last()).update(messages.last())
    }
}

/// Referential integrity is an invariant of editing: after any sequence
/// of messages every primitive still references stored points only, and
/// none of them twice.
pub proof fn lemma_integrity_is_invariant(editor: VecRedView, messages: Seq<Message>)
    requires
        editor.model.well_formed(),
    ensures
        updated_all(editor, messages).model.well_formed(),
    decreases messages.len(),
{
    if messages.len() > 0 {
        lemma_integrity_is_invariant(editor, messages.drop_last());
        lemma_update_keeps_integrity(updated_all(editor, messages.drop_last()), messages.last());
    }
}

/// The editor after `count` messages [`Message::Undo`].
pub open spec fn undone_times(editor: VecRedView, count: nat) -> VecRedView
    decreases count,
{
    if count == 0 {
        editor
    } else {
        undone_times(editor.undo(), (count - 1) as nat)
    }
}

/// Undoing as often as there are records on top of the journal reverses
/// those records on the store, the last of them first, and takes them
/// off the journal.
proof fn lemma_undone_times(editor: VecRedView, base: Seq<UndoRecord>, records: Seq<UndoRecord>)
    requires
        editor.journal == base + records,
    ensures
        undone_times(editor, records.len()).model == undone_all(editor.model, records),
        undone_times(editor, records.len()).journal == base,
        records.len() > 0 ==> undone_times(editor, records.len()).mode == Tool::Move,
    decreases records.len(),
{
    if records.len() == 0 {
        assert(base + records =~= base);
    } else {
        let next = editor.undo();
        assert(editor.journal.last() == records.last());
        assert(next.journal =~= base + records.drop_last());
        lemma_undone_times(next, base, records.drop_last());
    }
}

/// Recording one run of records after another is recording the two runs
/// joined.
proof fn lemma_recorded_all_joined(
    stack: Seq<UndoRecord>,
    first: Seq<UndoRecord>,
    second: Seq<UndoRecord>,
    max_len: int,
)
    ensures
        recorded_all(recorded_all(stack, first, max_len), second, max_len) == recorded_all(
            stack,
            first + second,
            max_len,
        ),
    decreases second.len(),
{
    if second.len() == 0 {
        assert(first + second =~= first);
    } else {
        lemma_recorded_all_joined(stack, first, second.drop_last(), max_len);
        assert((first + second).drop_last() =~= first + second.drop_last());
    }
}

/// Reversing two runs of records joined is reversing the second run and
/// then the first.
proof fn lemma_undone_all_joined(model: ModelView, first: Seq<UndoRecord>, second: Seq<UndoRecord>)
    ensures
        undone_all(model, first + second) == undone_all(undone_all(model, second), first),
    decreases second.len(),
{
    if second.len() == 0 {
        assert(first + second =~= first);
    } else {
        lemma_undone_all_joined(undone(model, second.last()), first, second.drop_last());
        assert((first + second).drop_last() =~= first + second.drop_last());
    }
}

/// Finding or creating a point records what reverses it.
proof fn lemma_with_point(editor: VecRedView, position: Position)
    requires
        editor.model.well_formed(),
    ensures
        editor.with_point(position).model.well_formed(),
        editor.with_point(position).journal == recorded_all(
            editor.journal,
            editor.point_records(position),
            editor.max_len as int,
        ),
        undone_all(editor.with_point(position).model, editor.point_records(position))
            == editor.model,
        applicable(editor.with_point(position).model, editor.point_records(position)),
{
    let records = editor.point_records(position);
    let after = editor.with_point(position);
    if records.len() == 0 {
    } else {
        assert(records.drop_last() =~= Seq::<UndoRecord>::empty());
        assert(recorded_all(editor.journal, records.drop_last(), editor.max_len as int)
            == editor.journal);
        assert forall|i: int| 0 <= i < after.model.prims.len() implies !references(
            #[trigger] after.model.prims[i],
            after.model.points.len() - 1,
        ) by {
            assert(valid_primitive(editor.model.prims[i], editor.model.points.len() as int));
        }
        assert(can_apply(after.model, UndoRecord::PointAdded));
        assert(after.model.points.drop_last() =~= editor.model.points);
        assert(undone(after.model, records.last()) == editor.model);
        assert(undone_all(editor.model, records.drop_last()) == editor.model);
        assert(applicable(inverse(after.model, records.last()), records.drop_last()));
    }
}

/// Adding a primitive records what reverses it.
proof fn lemma_with_primitive(editor: VecRedView, a: int, b: int, c: Option<int>)
    requires
        editor.model.well_formed(),
    ensures
        editor.with_primitive(a, b, c).model.well_formed(),
        editor.with_primitive(a, b, c).journal == recorded_all(
            editor.journal,
            editor.primitive_records(a, b, c),
            editor.max_len as int,
        ),
        undone_all(editor.with_primitive(a, b, c).model, editor.primitive_records(a, b, c))
            == editor.model,
        applicable(editor.with_primitive(a, b, c).model, editor.primitive_records(a, b, c)),
{
    let records = editor.primitive_records(a, b, c);
    let after = editor.with_primitive(a, b, c);
    if records.len() == 0 {
    } else {
        assert(records.drop_last() =~= Seq::<UndoRecord>::empty());
        assert(recorded_all(editor.journal, records.drop_last(), editor.max_len as int)
            == editor.journal);
        assert(after.model.prims.drop_last() =~= editor.model.prims);
        assert(undone(after.model, records.last()) == editor.model);
        assert(undone_all(editor.model, records.drop_last()) == editor.model);
        assert(applicable(inverse(after.model, records.last()), records.drop_last()));
    }
}

/// What a message records reverses what it did to the drawing: the
/// journal is given the records of the message, each of them can be
/// reversed when its turn comes, and reversing them all leaves the
/// drawing as it was before the message.
pub proof fn lemma_update_records(editor: VecRed, message: Message)
    requires
        editor@.model.well_formed(),
        message !is ClearAll,
        message !is Undo,
    ensures
        editor@.update(message).journal == recorded_all(
            editor@.journal,
            editor@.records_of(message),
            editor@.max_len as int,
        ),
        applicable(editor@.update(message).model, editor@.records_of(message)),
        undone_all(editor@.update(message).model, editor@.records_of(message)) == editor@.model,
{
    let before = editor@;
    let after = before.update(message);
    let records = before.records_of(message);
    let max_len = before.max_len as int;
    match message {
        Message::DefPoint(position) => {
            lemma_with_point(before, position);
        },
        Message::DefPrim(first, second, third) => {
            let one = before.with_point(first);
            let two = one.with_point(second);
            let a = before.found(first);
            let b = one.found(second);
            let r1 = before.point_records(first);
            let r2 = one.point_records(second);
            lemma_with_point(before, first);
            lemma_with_point(one, second);
            lemma_recorded_all_joined(before.journal, r1, r2, max_len);
            lemma_undone_all_joined(two.model, r1, r2);
            lemma_applicable_joined(two.model, r1, r2);
            match third {
                None => {
                    let r3 = two.primitive_records(a, b, None);
                    let three = two.with_primitive(a, b, None);
                    lemma_with_primitive(two, a, b, None);
                    lemma_recorded_all_joined(before.journal, r1 + r2, r3, max_len);
                    lemma_undone_all_joined(three.model, r1 + r2, r3);
                    lemma_applicable_joined(three.model, r1 + r2, r3);
                },
                Some(position) => {
                    let three = two.with_point(position);
                    let c = Some(two.found(position));
                    let four = three.with_primitive(a, b, c);
                    let r3 = two.point_records(position);
                    let r4 = three.primitive_records(a, b, c);
                    lemma_with_point(two, position);
                    lemma_with_primitive(three, a, b, c);
                    lemma_recorded_all_joined(before.journal, r1 + r2, r3, max_len);
                    lemma_undone_all_joined(three.model, r1 + r2, r3);
                    lemma_applicable_joined(three.model, r1 + r2, r3);
                    lemma_recorded_all_joined(before.journal, r1 + r2 + r3, r4, max_len);
                    lemma_undone_all_joined(four.model, r1 + r2 + r3, r4);
                    lemma_applicable_joined(four.model, r1 + r2 + r3, r4);
                },
            }
        },
        Message::ChangeApply => {
            if records.len() > 0 {
                assert(records.drop_last() =~= Seq::<UndoRecord>::empty());
                assert(recorded_all(before.journal, records.drop_last(), max_len)
                    == before.journal);
                assert(undone(after.model, records.last()).points =~= before.model.points);
                assert(undone_all(before.model, records.drop_last()) == before.model);
                assert(applicable(inverse(after.model, records.last()), records.drop_last()));
            }
        },
        Message::DeletePoint => {
            match before.chosen_point {
                Some((_, _, index)) => {
                    if index < before.model.points.len() {
                        lemma_removal_is_undone(editor.model, index);
                    }
                },
                None => {},
            }
        },
        _ => {},
    }
}

/// Undoing once for every record that a message left in the journal
/// restores the drawing, point by point and primitive by primitive, and
/// the journal, provided that the journal had room for those records.
/// The message that empties the drawing is the exception: it empties the
/// journal too.
pub proof fn lemma_update_is_undone(editor: VecRed, message: Message)
    requires
        editor@.model.well_formed(),
        message !is ClearAll,
        message !is Undo,
        editor@.journal.len() + editor@.records_of(message).len() < editor@.max_len,
    ensures
        editor@.update(message).journal == editor@.journal + editor@.records_of(message),
        undone_times(editor@.update(message), editor@.records_of(message).len()).model
            == editor@.model,
        undone_times(editor@.update(message), editor@.records_of(message).len()).journal
            == editor@.journal,
{
    let before = editor@;
    let records = before.records_of(message);
    lemma_update_records(editor, message);
    lemma_journal_bound(before.journal, records, before.max_len as int);
    lemma_undone_times(before.update(message), before.journal, records);
}

/// The journal keeps fitting the drawing: where every record could be
/// reversed in its turn before a message, every record can be after it.
/// So in an editor that only messages have changed, an undo always finds
/// a record that it can reverse.
pub proof fn lemma_update_keeps_consistency(editor: VecRed, message: Message)
    requires
        editor@.consistent(),
    ensures
        editor@.update(message).consistent(),
{
    let before = editor@;
    let after = before.update(message);
    lemma_update_keeps_integrity(before, message);
    match message {
        Message::ClearAll => {},
        Message::Undo => {},
        _ => {
            let records = before.records_of(message);
            lemma_update_records(editor, message);
            lemma_applicable_joined(after.model, before.journal, records);
            let from = lemma_recorded_all_is_an_end(
                before.journal,
                records,
                before.max_len as int,
            );
            lemma_applicable_without_oldest(after.model, before.journal + records, from);
        },
    }
}

/// Where the journal fits the drawing, an undo reverses the most recent
/// record: it is never turned away.
pub proof fn lemma_undo_reverses(editor: VecRedView)
    requires
        editor.consistent(),
        editor.journal.len() > 0,
    ensures
        can_apply(editor.model, editor.journal.last()),
        editor.undo().model == inverse(editor.model, editor.journal.last()),
        editor.undo().journal == editor.journal.drop_last(),
{
}

/// Deleting the selected point and then undoing once for every record
/// that the deletion left in the journal restores the drawing, point by
/// point and primitive by primitive, and the journal, provided that the
/// journal had room for those records.
pub proof fn lemma_delete_is_undone(editor: VecRed, index: usize)
    requires
        editor@.model.well_formed(),
        editor@.chosen_point matches Some(chosen) && chosen.2 == index,
        index < editor@.model.points.len(),
        editor@.journal.len() + editor@.model.removal_records(index as int).len()
            < editor@.max_len,
    ensures
        undone_times(
            editor@.delete_point(),
            editor@.model.removal_records(index as int).len(),
        ).model == editor@.model,
        undone_times(
            editor@.delete_point(),
            editor@.model.removal_records(index as int).len(),
        ).journal == editor@.journal,
{
    lemma_update_is_undone(editor, Message::DeletePoint);
}

/// The editor: the store, the journal of its mutations, the selection
/// and the settings that editing depends on.
pub struct VecRed {
    pub journal: UndoManager,
    pub model: Model,
    /// The pending edit of the selected point, if one is selected.
    pub chosen_point: Option<Chosen>,
    pub mode: Tool,
    /// The display scale; the hit tolerance is twice this.
    pub scale: u32,
    /// The radius that new points get.
    pub default_circle: i32,
}

impl View for VecRed {
    type V = VecRedView;

    open spec fn view(&self) -> VecRedView {
        VecRedView {
            journal: self.journal@,
            max_len: self.journal.max_len,
            model: self.model@,
            chosen_point: self.chosen_point,
            mode: self.mode,
            scale: self.scale,
            default_circle: self.default_circle,
        }
    }
}

impl Default for VecRed {
    /// An editor with an empty drawing and an empty journal of `max_len`
    /// 25, the move tool, scale 1 and radius 20 for new points.
    fn default() -> (editor: VecRed)
        ensures
            editor@ == (VecRedView {
                journal: Seq::empty(),
                max_len: 25,
                model: ModelView { points: Seq::empty(), prims: Seq::empty() },
                chosen_point: None,
                mode: Tool::Move,
                scale: 1,
                default_circle: 20,
            }),
            editor@.consistent(),
    {
        VecRed {
            journal: UndoManager::default(),
            model: Model::new(),
            chosen_point: None,
            mode: Tool::Move,
            scale: 1,
            default_circle: 20,
        }
    }
}

impl VecRed {
    /// Finds the point that stands for `point` or, where there is none
    /// within the hit tolerance, appends one there and records that.
    /// Returns the point's index.
    pub fn add_point(&mut self, point: Position) -> (number: usize)
        ensures
            number == old(self)@.found(point),
            number < final(self).model.points@.len(),
            final(self)@ == old(self)@.with_point(point),
            old(self).model@.well_formed() ==> final(self).model@.well_formed(),
    {
        let number = self.model.find_point(point, self.scale);
        if number == self.model.points.len() {
            self.journal.pushed_point();
            self.model.insert_point(Point { position: point, radius: self.default_circle });
        }
        number
    }

    /// Appends the primitive over the points at `a`, `b` and, if given,
    /// `c`, and records that. Two equal indices, or one that is not that
    /// of a stored point, leave the editor as it is: nothing is stored
    /// and nothing recorded.
    pub fn add_prim(&mut self, a: usize, b: usize, c: Option<usize>) -> (added: bool)
        ensures
            final(self)@ == old(self)@.with_primitive(
                a as int,
                b as int,
                match c {
                    Some(index) => Some(index as int),
                    None => None,
                },
            ),
            added == old(self)@.takes_primitive(
                a as int,
                b as int,
                match c {
                    Some(index) => Some(index as int),
                    None => None,
                },
            ),
            old(self).model@.well_formed() ==> final(self).model@.well_formed(),
    {
        let third: usize = match c {
            Some(index) => index,
            None => 0,
        };
        if a > i32::MAX as usize || b > i32::MAX as usize || third > i32::MAX as usize {
            return false;
        }
        let last: i32 = match c {
            Some(index) => index as i32,
            None => SENTINEL,
        };
        match self.model.insert_primitive(a as i32, b as i32, last) {
            Ok(()) => {
                self.journal.pushed_prim();
                true
            },
            Err(_) => false,
        }
    }

    /// Selects the point that stands for `point`, creating it first
    /// where there is none.
    pub fn def_point(&mut self, point: Position)
        ensures
            final(self)@ == old(self)@.def_point(point),
            old(self).model@.well_formed() ==> final(self).model@.well_formed(),
    {
        let number = self.add_point(point);
        let found = self.model.points[number];
        self.chosen_point = Some((found.position, found.radius, number));
    }

    /// Creates the segment between the points that stand for `first` and
    /// `second` or, with a `third`, the arc over the three. The points
    /// are found or created before the primitive is built; a primitive
    /// that would hold a point twice is not built. Drops the selection.
    pub fn def_prim(&mut self, first: Position, second: Position, third: Option<Position>)
        ensures
            final(self)@ == old(self)@.def_prim(first, second, third),
            old(self).model@.well_formed() ==> final(self).model@.well_formed(),
    {
        let a = self.add_point(first);
        let b = self.add_point(second);
        match third {
            None => {
                self.add_prim(a, b, None);
            },
            Some(position) => {
                let c = self.add_point(position);
                self.add_prim(a, b, Some(c));
            },
        }
        self.chosen_point = None;
    }

    /// Sets one value of the pending edit of the selected point: `num` 0
    /// is its x, 1 its y, 2 its radius. Without a selection, and for
    /// another `num`, nothing changes.
    pub fn change_point(&mut self, num: usize, value: i32)
        ensures
            final(self)@ == old(self)@.change_point(num, value),
    {
        match self.chosen_point {
            Some((position, radius, index)) => {
                if num == 0 {
                    self.chosen_point = Some((Position { x: value, y: position.y }, radius, index));
                } else if num == 1 {
                    self.chosen_point = Some((Position { x: position.x, y: value }, radius, index));
                } else if num == 2 {
                    self.chosen_point = Some((position, value, index));
                }
            },
            None => {},
        }
    }

    /// Writes the pending edit into the selected point and records the
    /// value that the point held. Nothing changes, and nothing is
    /// recorded, without a selection, where the selected index names no
    /// point, and where the point already holds the pending value.
    pub fn change_apply(&mut self)
        ensures
            final(self)@ == old(self)@.change_apply(),
            old(self).model@.well_formed() ==> final(self).model@.well_formed(),
    {
        match self.chosen_point {
            Some((position, radius, index)) => {
                if index < self.model.points.len() {
                    let held = self.model.points[index];
                    let wanted = Point { position, radius };
                    if held != wanted {
                        self.journal.changed_point(held, index);
                        self.model.points.set(index, wanted);
                    }
                }
            },
            None => {},
        }
    }

    /// Deletes the selected point with every primitive that references
    /// it, records what reverses that, drops the selection and goes back
    /// to the move tool. Without a selection nothing changes.
    pub fn delete_point(&mut self)
        ensures
            final(self)@ == old(self)@.delete_point(),
            old(self).model@.well_formed() ==> final(self).model@.well_formed(),
    {
        match self.chosen_point {
            Some((_, _, index)) => {
                let records = self.model.remove_point(index);
                self.journal.record_all(&records);
                self.chosen_point = None;
                self.mode = Tool::Move;
            },
            None => {},
        }
    }

    /// Reverses the most recent mutation that the journal holds and goes
    /// back to the move tool. With an empty journal the drawing stays as
    /// it is.
    pub fn undo(&mut self)
        ensures
            final(self)@ == old(self)@.undo(),
            old(self).model@.well_formed() ==> final(self).model@.well_formed(),
    {
        match self.journal.undo() {
            Some(record) => {
                apply_inverse(&mut self.model, record);
            },
            None => {},
        }
        self.mode = Tool::Move;
    }

    /// Empties the drawing and the journal and drops the selection.
    pub fn clear_all(&mut self)
        ensures
            final(self)@ == old(self)@.clear_all(),
            final(self).model@.well_formed(),
    {
        self.model.points.clear();
        self.model.prims.clear();
        self.journal.clear();
        self.chosen_point = None;
    }

    /// Replaces the whole drawing, as after loading one. The journal is
    /// emptied, since its records speak of indices of the drawing that
    /// is gone; the selection is dropped and the move tool picked. A
    /// drawing without referential integrity is refused, and the editor
    /// stays as it is.
    pub fn import_model(&mut self, model: Model) -> (accepted: bool)
        ensures
            accepted == model@.well_formed(),
            accepted ==> final(self)@ == (VecRedView {
                journal: Seq::empty(),
                model: model@,
                chosen_point: None,
                mode: Tool::Move,
                ..old(self)@
            }),
            !accepted ==> final(self)@ == old(self)@,
            old(self).model@.well_formed() ==> final(self).model@.well_formed(),
            old(self)@.consistent() ==> final(self)@.consistent(),
    {
        if !model.is_well_formed() {
            return false;
        }
        self.model = model;
        self.journal.clear();
        self.chosen_point = None;
        self.mode = Tool::Move;
        true
    }

    /// Applies one message. A request to the view leaves the editor as
    /// it is.
    pub fn update(&mut self, message: Message)
        ensures
            final(self)@ == old(self)@.update(message),
            old(self).model@.well_formed() ==> final(self).model@.well_formed(),
            old(self)@.consistent() ==> final(self)@.consistent(),
    {
        proof {
            if old(self)@.consistent() {
                lemma_update_keeps_consistency(*old(self), message);
            }
        }
        match message {
            Message::ChangeMode(mode) => {
                self.mode = mode;
            },
            Message::ClearAll => self.clear_all(),
            Message::Undo => self.undo(),
            Message::DefPoint(position) => self.def_point(position),
            Message::DefPrim(first, second, third) => self.def_prim(first, second, third),
            Message::DefUnselect => {
                self.chosen_point = None;
            },
            Message::ChangePoint(num, value) => self.change_point(num, value),
            Message::ChangeApply => self.change_apply(),
            Message::EditScale(scale) => {
                self.scale = scale;
            },
            Message::EditCircle(default_circle) => {
                self.default_circle = default_circle;
            },
            Message::DeletePoint => self.delete_point(),
            Message::SetZoom { .. } => {},
        }
    }
}

} // verus!
