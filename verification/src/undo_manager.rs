//! The undo journal: a bounded stack that holds, for each mutation of
//! the geometry, the record from which the mutation is reversed.

use vstd::prelude::*;
use crate::model::lemma_filter_from;
use crate::model::references;
use crate::model::removed_from;
use crate::model::spares;
use crate::model::swapped_primitive;
use crate::model::valid_primitive;
use crate::model::without_references;
use crate::model::Model;
use crate::model::ModelView;
use crate::model::Point;
use crate::model::Primitive;

verus! {

/// What it takes to reverse one mutation of the geometry.
#[derive(Clone, Copy, Debug, PartialEq, Eq)]
pub enum UndoRecord {
    /// A point was removed from `index`; undone by putting it back there.
    PointRemoved { point: Point, index: usize },
    /// A point was appended; undone by dropping the last point.
    PointAdded,
    /// A primitive was removed from `index`; undone by inserting it there.
    PrimitiveRemoved { primitive: Primitive, index: usize },
    /// A primitive was appended; undone by dropping the last primitive.
    PrimitiveAdded,
    /// The point at `index` was overwritten; undone by writing
    /// `old_value` back.
    PointMutated { old_value: Point, index: usize },
}

/// Whether `record` can be reversed on `model`: the place it names is
/// there, and reversing it leaves no primitive with a reference to a
/// point that is not stored.
pub open spec fn can_apply(model: ModelView, record: UndoRecord) -> bool {
    match record {
        UndoRecord::PointRemoved { point, index } => {
            &&& index <= model.points.len()
            &&& model.points.len() <= i32::MAX || forall|i: int|
                0 <= i < model.prims.len() ==> !references(#[trigger] model.prims[i], index as int)
        },
        UndoRecord::PointAdded => {
            &&& model.points.len() > 0
            &&& forall|i: int|
                0 <= i < model.prims.len() ==> !references(
                    #[trigger] model.prims[i],
                    model.points.len() - 1,
                )
        },
        UndoRecord::PrimitiveRemoved { primitive, index } => {
            &&& index <= model.prims.len()
            &&& valid_primitive(primitive, model.points.len() as int)
        },
        UndoRecord::PrimitiveAdded => model.prims.len() > 0,
        UndoRecord::PointMutated { old_value, index } => index < model.points.len(),
    }
}

/// The store after `record` has been reversed on it.
pub open spec fn inverse(model: ModelView, record: UndoRecord) -> ModelView
    recommends
        can_apply(model, record),
{
    match record {
        UndoRecord::PointRemoved { point, index } => {
            let count = model.points.len() as int;
            let appended = model.points.push(point);
            ModelView {
                points: appended.update(count, appended[index as int]).update(index as int, point),
                prims: model.prims,
            }.replace_prim(index as int, count)
        },
        UndoRecord::PointAdded => ModelView {
            points: model.points.drop_last(),
            prims: model.prims,
        },
        UndoRecord::PrimitiveRemoved { primitive, index } => ModelView {
            points: model.points,
            prims: model.prims.insert(index as int, primitive),
        },
        UndoRecord::PrimitiveAdded => ModelView {
            points: model.points,
            prims: model.prims.drop_last(),
        },
        UndoRecord::PointMutated { old_value, index } => ModelView {
            points: model.points.update(index as int, old_value),
            prims: model.prims,
        },
    }
}

/// The store after an attempt to reverse `record` on it: reversed where
/// that can be done, unchanged where it cannot.
pub open spec fn undone(model: ModelView, record: UndoRecord) -> ModelView {
    if can_apply(model, record) {
        inverse(model, record)
    } else {
        model
    }
}

/// The store after the records have been reversed on it one after the
/// other, the last of them first.
pub open spec fn undone_all(model: ModelView, records: Seq<UndoRecord>) -> ModelView
    decreases records.len(),
{
    if records.len() == 0 {
        model
    } else {
        undone_all(undone(model, records.last()), records.drop_last())
    }
}

/// Whether every record can be reversed when its turn comes: the last
/// record on the store as it is, the one before it on what that leaves,
/// and so on.
pub open spec fn applicable(model: ModelView, records: Seq<UndoRecord>) -> bool
    decreases records.len(),
{
    records.len() == 0 || (can_apply(model, records.last()) && applicable(
        inverse(model, records.last()),
        records.drop_last(),
    ))
}

/// Records that can be reversed in turn can still be when the oldest of
/// them are forgotten.
pub proof fn lemma_applicable_without_oldest(model: ModelView, records: Seq<UndoRecord>, from: int)
    requires
        applicable(model, records),
        0 <= from <= records.len(),
    ensures
        applicable(model, records.subrange(from, records.len() as int)),
    decreases records.len(),
{
    let kept = records.subrange(from, records.len() as int);
    if kept.len() > 0 {
        lemma_applicable_without_oldest(
            inverse(model, records.last()),
            records.drop_last(),
            from,
        );
        assert(kept.last() == records.last());
        assert(kept.drop_last() =~= records.drop_last().subrange(from, records.len() - 1));
    }
}

/// Records that can be reversed in turn, and that lead to a store on
/// which earlier records can be, can be reversed in turn after those.
pub proof fn lemma_applicable_joined(
    model: ModelView,
    earlier: Seq<UndoRecord>,
    records: Seq<UndoRecord>,
)
    requires
        applicable(model, records),
        applicable(undone_all(model, records), earlier),
    ensures
        applicable(model, earlier + records),
    decreases records.len(),
{
    if records.len() == 0 {
        assert(earlier + records =~= earlier);
    } else {
        lemma_applicable_joined(inverse(model, records.last()), earlier, records.drop_last());
        assert((earlier + records).last() == records.last());
        assert((earlier + records).drop_last() =~= earlier + records.drop_last());
    }
}

/// What the journal holds after further records is the end of all that
/// it held and was given.
pub proof fn lemma_recorded_all_is_an_end(
    stack: Seq<UndoRecord>,
    records: Seq<UndoRecord>,
    max_len: int,
) -> (from: int)
    ensures
        0 <= from <= (stack + records).len(),
        recorded_all(stack, records, max_len) == (stack + records).subrange(
            from,
            (stack + records).len() as int,
        ),
    decreases records.len(),
{
    if records.len() == 0 {
        assert(stack + records =~= stack);
        assert(stack.subrange(0, stack.len() as int) =~= stack);
        0
    } else {
        let earlier = lemma_recorded_all_is_an_end(stack, records.drop_last(), max_len);
        let before = recorded_all(stack, records.drop_last(), max_len);
        assert(stack + records =~= (stack + records.drop_last()).push(records.last()));
        let from = if before.len() + 1 >= max_len {
            earlier + 1
        } else {
            earlier
        };
        assert(recorded_all(stack, records, max_len) =~= (stack + records).subrange(
            from,
            (stack + records).len() as int,
        ));
        from
    }
}

/// Reversing a record keeps referential integrity.
pub proof fn lemma_undone_keeps_integrity(model: ModelView, record: UndoRecord)
    requires
        model.well_formed(),
    ensures
        undone(model, record).well_formed(),
{
    if can_apply(model, record) {
        let after = inverse(model, record);
        match record {
            UndoRecord::PointRemoved { point, index } => {
                assert forall|i: int| 0 <= i < after.prims.len() implies valid_primitive(
                    #[trigger] after.prims[i],
                    after.points.len() as int,
                ) by {
                    assert(valid_primitive(model.prims[i], model.points.len() as int));
                }
            },
            UndoRecord::PointAdded => {
                assert forall|i: int| 0 <= i < after.prims.len() implies valid_primitive(
                    #[trigger] after.prims[i],
                    after.points.len() as int,
                ) by {
                    assert(valid_primitive(model.prims[i], model.points.len() as int));
                    assert(!references(model.prims[i], model.points.len() - 1));
                }
            },
            UndoRecord::PrimitiveRemoved { primitive, index } => {
                assert forall|i: int| 0 <= i < after.prims.len() implies valid_primitive(
                    #[trigger] after.prims[i],
                    after.points.len() as int,
                ) by {
                    if i < index {
                        assert(after.prims[i] == model.prims[i]);
                    } else if i > index {
                        assert(after.prims[i] == model.prims[i - 1]);
                    }
                }
            },
            UndoRecord::PrimitiveAdded => {
                assert forall|i: int| 0 <= i < after.prims.len() implies valid_primitive(
                    #[trigger] after.prims[i],
                    after.points.len() as int,
                ) by {
                    assert(after.prims[i] == model.prims[i]);
                }
            },
            UndoRecord::PointMutated { old_value, index } => {},
        }
    }
}

/// Reverses `record` on `model` where that can be done, and says whether
/// it was done. A record that cannot be reversed on this store leaves it
/// as it is.
pub fn apply_inverse(model: &mut Model, record: UndoRecord) -> (applied: bool)
    ensures
        applied == can_apply(old(model)@, record),
        final(model)@ == undone(old(model)@, record),
        old(model)@.well_formed() ==> final(model)@.well_formed(),
{
    proof {
        if model@.well_formed() {
            lemma_undone_keeps_integrity(model@, record);
        }
    }
    match record {
        UndoRecord::PointRemoved { point, index } => {
            let count = model.points.len();
            if index > count {
                return false;
            }
            if count > i32::MAX as usize && model.is_referenced(index) {
                return false;
            }
            if index == count {
                model.points.push(point);
            } else {
                let displaced = model.points[index];
                model.points.set(index, point);
                model.points.push(displaced);
            }
            assert(model@.points =~= inverse(old(model)@, record).points);
            if count <= i32::MAX as usize {
                model.replace_prim(index, count);
            } else {
                assert(model@.prims =~= inverse(old(model)@, record).prims);
            }
            true
        },
        UndoRecord::PointAdded => {
            let count = model.points.len();
            if count == 0 || model.is_referenced(count - 1) {
                return false;
            }
            model.points.pop();
            assert(model@.points =~= old(model)@.points.drop_last());
            true
        },
        UndoRecord::PrimitiveRemoved { primitive, index } => {
            if index > model.prims.len() || primitive.0 == primitive.1 || !model.holds(primitive.0)
                || !model.holds(primitive.1) {
                return false;
            }
            if primitive.2 != crate::model::SENTINEL && (!model.holds(primitive.2) || primitive.2
                == primitive.0 || primitive.2 == primitive.1) {
                return false;
            }
            model.prims.insert(index, primitive);
            true
        },
        UndoRecord::PrimitiveAdded => {
            if model.prims.len() == 0 {
                return false;
            }
            model.prims.pop();
            assert(model@.prims =~= old(model)@.prims.drop_last());
            true
        },
        UndoRecord::PointMutated { old_value, index } => {
            if index >= model.points.len() {
                return false;
            }
            model.points.set(index, old_value);
            true
        },
    }
}

/// The journal after `record` has been recorded in it: the record is
/// pushed, and where the journal has then reached `max_len` its oldest
/// record leaves.
pub open spec fn recorded(stack: Seq<UndoRecord>, record: UndoRecord, max_len: int) -> Seq<
    UndoRecord,
> {
    if stack.len() + 1 >= max_len {
        stack.push(record).drop_first()
    } else {
        stack.push(record)
    }
}

/// The journal after each of `records` has been recorded in it, the first
/// of them first.
pub open spec fn recorded_all(stack: Seq<UndoRecord>, records: Seq<UndoRecord>, max_len: int) -> Seq<
    UndoRecord,
>
    decreases records.len(),
{
    if records.len() == 0 {
        stack
    } else {
        recorded(recorded_all(stack, records.drop_last(), max_len), records.last(), max_len)
    }
}

/// The last `count` entries of `history`, or all of it where it has
/// fewer.
pub open spec fn most_recent(history: Seq<UndoRecord>, count: int) -> Seq<UndoRecord> {
    if history.len() <= count {
        history
    } else {
        history.subrange(history.len() - count, history.len() as int)
    }
}

/// The bounded stack of undo records.
#[derive(Debug)]
pub struct UndoManager {
    /// The records, the oldest first.
    pub undo_stack: Vec<UndoRecord>,
    /// The length that the journal does not reach: a record that would
    /// bring it there pushes the oldest record out.
    pub max_len: usize,
}

impl View for UndoManager {
    type V = Seq<UndoRecord>;

    open spec fn view(&self) -> Seq<UndoRecord> {
        self.undo_stack@
    }
}

impl Default for UndoManager {
    /// An empty journal with `max_len` 25.
    fn default() -> (journal: UndoManager)
        ensures
            journal@ == Seq::<UndoRecord>::empty(),
            journal.max_len == 25,
    {
        UndoManager { undo_stack: Vec::new(), max_len: 25 }
    }
}

impl UndoManager {
    /// An empty journal with the given `max_len`.
    pub fn new(max_len: usize) -> (journal: UndoManager)
        ensures
            journal@ == Seq::<UndoRecord>::empty(),
            journal.max_len == max_len,
    {
        UndoManager { undo_stack: Vec::new(), max_len }
    }

    /// The number of records held.
    pub fn len(&self) -> (count: usize)
        ensures
            count == self@.len(),
    {
        self.undo_stack.len()
    }

    /// Empties the journal.
    pub fn clear(&mut self)
        ensures
            final(self)@ == Seq::<UndoRecord>::empty(),
            final(self).max_len == old(self).max_len,
    {
        self.undo_stack.clear()
    }

    /// Records a mutation. Where the journal then holds `max_len` records
    /// or more, its oldest record leaves.
    pub fn record(&mut self, record: UndoRecord)
        ensures
            final(self)@ == recorded(old(self)@, record, old(self).max_len as int),
            final(self).max_len == old(self).max_len,
    {
        self.undo_stack.push(record);
        if self.undo_stack.len() >= self.max_len {
            let _ = self.undo_stack.remove(0);
            assert(self@ =~= old(self)@.push(record).drop_first());
        }
    }

    /// Records every entry of `records`, the first of them first.
    pub fn record_all(&mut self, records: &Vec<UndoRecord>)
        ensures
            final(self)@ == recorded_all(old(self)@, records@, old(self).max_len as int),
            final(self).max_len == old(self).max_len,
    {
        let mut i: usize = 0;
        assert(records@.subrange(0, 0) =~= Seq::<UndoRecord>::empty());
        while i < records.len()
            invariant
                i <= records@.len(),
                self.max_len == old(self).max_len,
                self@ == recorded_all(
                    old(self)@,
                    records@.subrange(0, i as int),
                    old(self).max_len as int,
                ),
            decreases records@.len() - i,
        {
            assert(records@.subrange(0, i + 1).drop_last() =~= records@.subrange(0, i as int));
            self.record(records[i]);
            i += 1;
        }
        assert(records@.subrange(0, i as int) =~= records@);
    }

    /// Records that the point `dot` was removed from index `num`.
    pub fn deleted_point(&mut self, dot: Point, num: usize)
        ensures
            final(self)@ == recorded(
                old(self)@,
                UndoRecord::PointRemoved { point: dot, index: num },
                old(self).max_len as int,
            ),
            final(self).max_len == old(self).max_len,
    {
        self.record(UndoRecord::PointRemoved { point: dot, index: num })
    }

    /// Records that the primitive `line` was removed from position
    /// `placement`.
    pub fn deleted_prim(&mut self, line: Primitive, placement: usize)
        ensures
            final(self)@ == recorded(
                old(self)@,
                UndoRecord::PrimitiveRemoved { primitive: line, index: placement },
                old(self).max_len as int,
            ),
            final(self).max_len == old(self).max_len,
    {
        self.record(UndoRecord::PrimitiveRemoved { primitive: line, index: placement })
    }

    /// Records that a point was appended.
    pub fn pushed_point(&mut self)
        ensures
            final(self)@ == recorded(old(self)@, UndoRecord::PointAdded, old(self).max_len as int),
            final(self).max_len == old(self).max_len,
    {
        self.record(UndoRecord::PointAdded)
    }

    /// Records that a primitive was appended.
    pub fn pushed_prim(&mut self)
        ensures
            final(self)@ == recorded(
                old(self)@,
                UndoRecord::PrimitiveAdded,
                old(self).max_len as int,
            ),
            final(self).max_len == old(self).max_len,
    {
        self.record(UndoRecord::PrimitiveAdded)
    }

    /// Records that the point at index `num` was overwritten and held
    /// `before` until then.
    pub fn changed_point(&mut self, before: Point, num: usize)
        ensures
            final(self)@ == recorded(
                old(self)@,
                UndoRecord::PointMutated { old_value: before, index: num },
                old(self).max_len as int,
            ),
            final(self).max_len == old(self).max_len,
    {
        self.record(UndoRecord::PointMutated { old_value: before, index: num })
    }

    /// Takes the most recent record off the journal and returns it; an
    /// empty journal stays empty and yields nothing to reverse.
    pub fn undo(&mut self) -> (record: Option<UndoRecord>)
        ensures
            old(self)@.len() == 0 ==> record is None && final(self)@ == old(self)@,
            old(self)@.len() > 0 ==> record == Some(old(self)@.last()) && final(self)@ == old(
                self,
            )@.drop_last(),
            final(self).max_len == old(self).max_len,
    {
        self.undo_stack.pop()
    }
}

/// A journal that holds fewer than `max_len` records holds, after any
/// number of further records, the most recent `max_len - 1` of all that
/// it held and was given, oldest first; every older one is lost.
pub proof fn lemma_journal_bound(stack: Seq<UndoRecord>, records: Seq<UndoRecord>, max_len: int)
    requires
        stack.len() < max_len,
    ensures
        recorded_all(stack, records, max_len) == most_recent(stack + records, max_len - 1),
        recorded_all(stack, records, max_len).len() < max_len,
    decreases records.len(),
{
    if records.len() == 0 {
        assert(stack + records =~= stack);
    } else {
        let earlier = records.drop_last();
        lemma_journal_bound(stack, earlier, max_len);
        assert(stack + records =~= (stack + earlier).push(records.last()));
        assert(recorded_all(stack, records, max_len) =~= most_recent(
            stack + records,
            max_len - 1,
        ));
    }
}

/// The store in which the primitives before position `from` are back in
/// their places and those from `from` on that reference `index` are still
/// missing.
pub open spec fn partly_restored(model: ModelView, index: int, from: int) -> ModelView {
    ModelView {
        points: model.points,
        prims: model.prims.subrange(0, from) + without_references(
            model.prims.subrange(from, model.prims.len() as int),
            index,
        ),
    }
}

/// Reversing the records of the primitives from `from` on puts those
/// primitives back.
proof fn lemma_primitives_return(model: ModelView, index: int, from: int)
    requires
        model.well_formed(),
        0 <= from <= model.prims.len() <= usize::MAX,
    ensures
        undone_all(partly_restored(model, index, from), removed_from(model.prims, index, from))
            == model,
        applicable(partly_restored(model, index, from), removed_from(model.prims, index, from)),
    decreases model.prims.len() - from,
{
    let count = model.prims.len() as int;
    let here = partly_restored(model, index, from);
    if from == count {
        assert(model.prims.subrange(from, count) =~= Seq::<Primitive>::empty());
        assert(without_references(Seq::<Primitive>::empty(), index) =~= Seq::<Primitive>::empty())
            by {
            reveal(Seq::filter);
        }
        assert(here.prims =~= model.prims);
    } else {
        let primitive = model.prims[from];
        let rest = model.prims.subrange(from + 1, count);
        let next = partly_restored(model, index, from + 1);
        assert(model.prims.subrange(from, count) =~= seq![primitive] + rest);
        rest.lemma_filter_prepend(primitive, spares(index));
        lemma_primitives_return(model, index, from + 1);
        if references(primitive, index) {
            let record = UndoRecord::PrimitiveRemoved { primitive, index: from as usize };
            let later = removed_from(model.prims, index, from + 1);
            assert(removed_from(model.prims, index, from) == later.push(record));
            assert(later.push(record).drop_last() =~= later);
            assert(valid_primitive(primitive, model.points.len() as int));
            assert(can_apply(here, record));
            assert(inverse(here, record).prims =~= next.prims);
            assert(inverse(here, record) == next);
        } else {
            assert(here.prims =~= next.prims);
        }
    }
}

/// Removing a point and then reversing what the removal recorded, the
/// last record first, gives back the store as it was: the same points at
/// the same indices and the same primitives in the same order. Each of
/// the records can be reversed when its turn comes.
pub proof fn lemma_removal_is_undone(model: Model, index: usize)
    requires
        model@.well_formed(),
        index < model.points@.len(),
    ensures
        undone_all(model@.remove_point(index as int), model@.removal_records(index as int))
            == model@,
        applicable(model@.remove_point(index as int), model@.removal_records(index as int)),
{
    let before = model@;
    let after = before.remove_point(index as int);
    let kept = without_references(before.prims, index as int);
    let last = before.points.len() - 1;
    let record = UndoRecord::PointRemoved { point: before.points[index as int], index };
    let for_primitives = removed_from(before.prims, index as int, 0);
    assert(before.removal_records(index as int).drop_last() =~= for_primitives);
    assert forall|j: int| 0 <= j < kept.len() implies swapped_primitive(
        swapped_primitive(#[trigger] kept[j], last, index as int),
        index as int,
        last,
    ) == kept[j] by {
        before.prims.lemma_filter_pred(spares(index as int), j);
        lemma_filter_from(before.prims, index as int, j);
        let i = choose|i: int| 0 <= i < before.prims.len() && before.prims[i] == kept[j];
        assert(valid_primitive(before.prims[i], before.points.len() as int));
    }
    assert(can_apply(after, record)) by {
        if after.points.len() > i32::MAX {
            assert forall|j: int| 0 <= j < after.prims.len() implies !references(
                #[trigger] after.prims[j],
                index as int,
            ) by {
                before.prims.lemma_filter_pred(spares(index as int), j);
            }
        }
    }
    let middle = inverse(after, record);
    assert(middle.points =~= before.points);
    assert(middle.prims =~= kept);
    assert(before.prims.subrange(0, 0) =~= Seq::<Primitive>::empty());
    assert(before.prims.subrange(0, before.prims.len() as int) =~= before.prims);
    assert(partly_restored(before, index as int, 0).prims =~= kept);
    assert(middle == partly_restored(before, index as int, 0));
    assert(before.prims.len() == model.prims.len());
    lemma_primitives_return(before, index as int, 0);
}

} // verus!
