//! The geometry store: points, the primitives that join them by index,
//! hit-testing, the bounding box, and removal with index patching.

use vstd::prelude::*;
use crate::undo_manager::UndoRecord;

verus! {

/// The third reference of a primitive that is a straight segment.
pub const SENTINEL: i32 = -1;

/// A primitive: the indices of two points and, unless the third entry is
/// [`SENTINEL`], of a third point through which an arc passes.
pub type Primitive = (i32, i32, i32);

/// A position on the integer lattice on which the drawing lives.
#[derive(Clone, Copy, Debug, PartialEq, Eq, Structural)]
pub struct Position {
    pub x: i32,
    pub y: i32,
}

/// A stored point: where it lies and the radius of the circle shown
/// around it. A point has no identity but its index in the store.
#[derive(Clone, Copy, Debug, PartialEq, Eq, Structural)]
pub struct Point {
    pub position: Position,
    pub radius: i32,
}

/// The square of the Euclidean distance between two positions.
pub open spec fn distance_squared(p: Position, q: Position) -> int {
    (p.x - q.x) * (p.x - q.x) + (p.y - q.y) * (p.y - q.y)
}

/// Whether the Euclidean distance between `p` and `q` is less than
/// `tolerance`.
pub open spec fn within(p: Position, q: Position, tolerance: int) -> bool {
    0 < tolerance && distance_squared(p, q) < tolerance * tolerance
}

/// The absolute difference of two coordinates.
fn span(a: i32, b: i32) -> (d: u64)
    ensures
        d == if a >= b { a - b } else { b - a },
        d <= 0xFFFF_FFFF,
{
    let wide: i64 = a as i64 - b as i64;
    if wide < 0 {
        (-wide) as u64
    } else {
        wide as u64
    }
}

/// The square of a number, widened so that it cannot overflow.
fn square(d: u64) -> (s: u128)
    ensures
        s == d * d,
{
    assert(d * d <= 0xFFFF_FFFF_FFFF_FFFF * 0xFFFF_FFFF_FFFF_FFFF) by (nonlinear_arith)
        requires
            0 <= d <= 0xFFFF_FFFF_FFFF_FFFF,
    ;
    (d as u128) * (d as u128)
}

impl Position {
    /// The position with the coordinates `x` and `y`.
    pub fn new(x: i32, y: i32) -> (p: Position)
        ensures
            p == (Position { x, y }),
    {
        Position { x, y }
    }

    /// Whether `other` lies closer to this position than `tolerance`.
    pub fn is_within(&self, other: Position, tolerance: u64) -> (close: bool)
        ensures
            close == within(*self, other, tolerance as int),
    {
        let dx: u64 = span(self.x, other.x);
        let dy: u64 = span(self.y, other.y);
        let dx2: u128 = square(dx);
        let dy2: u128 = square(dy);
        assert(dx2 <= 0xFFFF_FFFF * 0xFFFF_FFFF) by (nonlinear_arith)
            requires
                dx2 == dx * dx,
                0 <= dx <= 0xFFFF_FFFF,
        ;
        assert(dy2 <= 0xFFFF_FFFF * 0xFFFF_FFFF) by (nonlinear_arith)
            requires
                dy2 == dy * dy,
                0 <= dy <= 0xFFFF_FFFF,
        ;
        assert(dx * dx == (self.x - other.x) * (self.x - other.x)) by (nonlinear_arith)
            requires
                dx == self.x - other.x || dx == other.x - self.x,
        ;
        assert(dy * dy == (self.y - other.y) * (self.y - other.y)) by (nonlinear_arith)
            requires
                dy == self.y - other.y || dy == other.y - self.y,
        ;
        let limit: u128 = square(tolerance);
        assert(tolerance == 0 ==> limit == 0);
        dx2 + dy2 < limit
    }
}

/// Whether one of the three references of `primitive` is `index`.
pub open spec fn references(primitive: Primitive, index: int) -> bool {
    primitive.0 == index || primitive.1 == index || primitive.2 == index
}

/// Whether `primitive` may stand in a store of `count` points: its
/// references are indices of stored points and no two of them are equal.
pub open spec fn valid_primitive(primitive: Primitive, count: int) -> bool {
    &&& 0 <= primitive.0 < count
    &&& 0 <= primitive.1 < count
    &&& primitive.0 != primitive.1
    &&& primitive.2 == SENTINEL || (0 <= primitive.2 < count && primitive.2 != primitive.0
        && primitive.2 != primitive.1)
}

/// Whether no two of the three entries are equal.
pub open spec fn distinct(a: i32, b: i32, c: i32) -> bool {
    a != b && a != c && b != c
}

/// The reference `r` after the points at `one` and `two` have changed
/// places.
pub open spec fn swapped_reference(r: i32, one: int, two: int) -> i32 {
    if r == one {
        two as i32
    } else if r == two {
        one as i32
    } else {
        r
    }
}

/// The primitive after the points at `one` and `two` have changed places.
pub open spec fn swapped_primitive(primitive: Primitive, one: int, two: int) -> Primitive {
    (
        swapped_reference(primitive.0, one, two),
        swapped_reference(primitive.1, one, two),
        swapped_reference(primitive.2, one, two),
    )
}

/// The test that a primitive passes when it does not reference `index`.
pub open spec fn spares(index: int) -> spec_fn(Primitive) -> bool {
    |primitive: Primitive| !references(primitive, index)
}

/// The primitives that do not reference `index`, in their order.
pub open spec fn without_references(prims: Seq<Primitive>, index: int) -> Seq<Primitive> {
    prims.filter(spares(index))
}

/// The records of the primitives from position `from` on that reference
/// `index`, each with the position it stands at, the last of them first.
pub open spec fn removed_from(prims: Seq<Primitive>, index: int, from: int) -> Seq<UndoRecord>
    decreases prims.len() - from,
{
    if from < 0 || from >= prims.len() {
        Seq::empty()
    } else if references(prims[from], index) {
        removed_from(prims, index, from + 1).push(
            UndoRecord::PrimitiveRemoved { primitive: prims[from], index: from as usize },
        )
    } else {
        removed_from(prims, index, from + 1)
    }
}

/// The index of the first point from `from` on that lies within
/// `tolerance` of `position`, or the number of points where there is
/// none.
pub open spec fn first_within(
    points: Seq<Point>,
    position: Position,
    tolerance: int,
    from: int,
) -> int
    decreases points.len() - from,
{
    if from < 0 || from >= points.len() {
        points.len() as int
    } else if within(points[from].position, position, tolerance) {
        from
    } else {
        first_within(points, position, tolerance, from + 1)
    }
}

/// Whether `low` and `high` are the corners of the smallest box with
/// sides along the axes that holds every point.
pub open spec fn is_bounding_box(points: Seq<Point>, low: Position, high: Position) -> bool {
    &&& forall|i: int|
        0 <= i < points.len() ==> low.x <= (#[trigger] points[i]).position.x <= high.x && low.y
            <= points[i].position.y <= high.y
    &&& exists|i: int| 0 <= i < points.len() && (#[trigger] points[i]).position.x == low.x
    &&& exists|i: int| 0 <= i < points.len() && (#[trigger] points[i]).position.y == low.y
    &&& exists|i: int| 0 <= i < points.len() && (#[trigger] points[i]).position.x == high.x
    &&& exists|i: int| 0 <= i < points.len() && (#[trigger] points[i]).position.y == high.y
}

/// The mathematical content of a [`Model`].
pub struct ModelView {
    pub points: Seq<Point>,
    pub prims: Seq<Primitive>,
}

impl ModelView {
    /// Referential integrity: every primitive references stored points
    /// only, and no point twice.
    pub open spec fn well_formed(self) -> bool {
        forall|i: int|
            0 <= i < self.prims.len() ==> valid_primitive(
                #[trigger] self.prims[i],
                self.points.len() as int,
            )
    }

    /// The index of the first point within `tolerance` of `position`, or
    /// the number of points where there is none.
    pub open spec fn hit_test(self, position: Position, tolerance: int) -> int {
        first_within(self.points, position, tolerance, 0)
    }

    /// The store after `point` has been appended.
    pub open spec fn insert_point(self, point: Point) -> ModelView {
        ModelView { points: self.points.push(point), prims: self.prims }
    }

    /// The store after `primitive` has been appended.
    pub open spec fn insert_primitive(self, primitive: Primitive) -> ModelView {
        ModelView { points: self.points, prims: self.prims.push(primitive) }
    }

    /// The store after every reference to `one` has become one to `two`
    /// and the reverse.
    pub open spec fn replace_prim(self, one: int, two: int) -> ModelView {
        ModelView {
            points: self.points,
            prims: self.prims.map_values(
                |primitive: Primitive| swapped_primitive(primitive, one, two),
            ),
        }
    }

    /// The store after the point at `index` has left it: the primitives
    /// that reference the point are gone, the last point has taken its
    /// place, and what referenced the last point references `index`.
    pub open spec fn remove_point(self, index: int) -> ModelView
        recommends
            0 <= index < self.points.len(),
    {
        ModelView {
            points: self.points.update(index, self.points.last()).drop_last(),
            prims: without_references(self.prims, index),
        }.replace_prim(self.points.len() - 1, index)
    }

    /// What reverses the removal of the point at `index`, in the order in
    /// which it is recorded: the primitives that went with it, the last
    /// of them first, then the point itself.
    pub open spec fn removal_records(self, index: int) -> Seq<UndoRecord>
        recommends
            0 <= index < self.points.len(),
    {
        removed_from(self.prims, index, 0).push(
            UndoRecord::PointRemoved { point: self.points[index], index: index as usize },
        )
    }
}

/// Swapping `index` with `last` leaves a primitive that references
/// neither as it is; so it does one that does not reference `index`, where
/// `last` is `index` or too large to be referenced at all.
proof fn lemma_swap_spares(prims: Seq<Primitive>, index: int, last: int)
    requires
        last == index || last > i32::MAX,
    ensures
        forall|j: int|
            0 <= j < without_references(prims, index).len() ==> swapped_primitive(
                #[trigger] without_references(prims, index)[j],
                last,
                index,
            ) == without_references(prims, index)[j],
{
    let kept = without_references(prims, index);
    assert forall|j: int| 0 <= j < kept.len() implies swapped_primitive(
        #[trigger] kept[j],
        last,
        index,
    ) == kept[j] by {
        prims.lemma_filter_pred(spares(index), j);
    }
}

/// Removing a point keeps referential integrity.
pub proof fn lemma_removal_keeps_integrity(model: ModelView, index: int)
    requires
        0 <= index < model.points.len(),
    ensures
        model.well_formed() ==> model.remove_point(index).well_formed(),
{
    if model.well_formed() {
        let kept = without_references(model.prims, index);
        let after = model.remove_point(index);
        let last = model.points.len() - 1;
        assert forall|j: int| 0 <= j < after.prims.len() implies valid_primitive(
            #[trigger] after.prims[j],
            after.points.len() as int,
        ) by {
            model.prims.lemma_filter_pred(spares(index), j);
            lemma_filter_from(model.prims, index, j);
            let i = choose|i: int| 0 <= i < model.prims.len() && model.prims[i] == kept[j];
            assert(valid_primitive(model.prims[i], model.points.len() as int));
            assert(after.prims[j] == swapped_primitive(kept[j], last, index));
        }
    }
}

/// Each primitive that is kept was there before.
pub proof fn lemma_filter_from(prims: Seq<Primitive>, index: int, j: int)
    requires
        0 <= j < without_references(prims, index).len(),
    ensures
        exists|i: int| 0 <= i < prims.len() && prims[i] == without_references(prims, index)[j],
    decreases prims.len(),
{
    reveal(Seq::filter);
    if prims.len() > 0 {
        let shorter = without_references(prims.drop_last(), index);
        if j < shorter.len() {
            lemma_filter_from(prims.drop_last(), index, j);
            let i = choose|i: int|
                0 <= i < prims.drop_last().len() && prims.drop_last()[i] == shorter[j];
            assert(prims[i] == without_references(prims, index)[j]);
        } else {
            assert(prims[prims.len() - 1] == without_references(prims, index)[j]);
        }
    }
}

/// The reference `r` after the points at `one` and `two` have changed
/// places.
fn swap_reference(r: i32, one: usize, two: usize) -> (s: i32)
    requires
        one <= i32::MAX,
        two <= i32::MAX,
    ensures
        s == swapped_reference(r, one as int, two as int),
{
    if r >= 0 && r as usize == one {
        two as i32
    } else if r >= 0 && r as usize == two {
        one as i32
    } else {
        r
    }
}

/// Whether one of the three references of `primitive` is `index`.
fn refers(primitive: Primitive, index: usize) -> (referenced: bool)
    ensures
        referenced == references(primitive, index as int),
{
    (primitive.0 >= 0 && primitive.0 as usize == index) || (primitive.1 >= 0 && primitive.1 as usize
        == index) || (primitive.2 >= 0 && primitive.2 as usize == index)
}

/// Why a primitive was not stored.
#[derive(Clone, Copy, Debug, PartialEq, Eq, Structural)]
pub enum PrimitiveError {
    /// Two of its entries are equal.
    Degenerate,
    /// One of its references is not the index of a stored point.
    OutOfRange,
}

/// The geometry store.
#[derive(Debug)]
pub struct Model {
    pub points: Vec<Point>,
    pub prims: Vec<Primitive>,
}

impl View for Model {
    type V = ModelView;

    open spec fn view(&self) -> ModelView {
        ModelView { points: self.points@, prims: self.prims@ }
    }
}

/// What `first_within` finds, stated without recursion: the result is the
/// least index from `from` on whose point is within the tolerance.
pub proof fn lemma_first_within(points: Seq<Point>, position: Position, tolerance: int, from: int)
    requires
        0 <= from <= points.len(),
    ensures
        from <= first_within(points, position, tolerance, from) <= points.len(),
        first_within(points, position, tolerance, from) < points.len() ==> within(
            points[first_within(points, position, tolerance, from)].position,
            position,
            tolerance,
        ),
        forall|j: int|
            from <= j < first_within(points, position, tolerance, from) ==> !within(
                (#[trigger] points[j]).position,
                position,
                tolerance,
            ),
    decreases points.len() - from,
{
    if from < points.len() && !within(points[from].position, position, tolerance) {
        lemma_first_within(points, position, tolerance, from + 1);
    }
}

/// Hit-testing the place of a stored point, with a tolerance above zero,
/// finds a stored point and never calls for a new one: the first point
/// within the tolerance of that place, which is the point itself unless
/// an earlier one lies that close to it.
pub proof fn lemma_hit_test_finds_stored(model: ModelView, index: int, tolerance: int)
    requires
        0 <= index < model.points.len(),
        tolerance > 0,
    ensures
        0 <= model.hit_test(model.points[index].position, tolerance) <= index,
        within(
            model.points[model.hit_test(model.points[index].position, tolerance)].position,
            model.points[index].position,
            tolerance,
        ),
        (forall|j: int|
            0 <= j < index ==> !within(
                (#[trigger] model.points[j]).position,
                model.points[index].position,
                tolerance,
            )) ==> model.hit_test(model.points[index].position, tolerance) == index,
{
    let position = model.points[index].position;
    lemma_first_within(model.points, position, tolerance, 0);
    assert(within(position, position, tolerance)) by (nonlinear_arith)
        requires
            tolerance > 0,
            distance_squared(position, position) == 0,
    ;
    let found = model.hit_test(position, tolerance);
    if found > index {
        assert(!within(model.points[index].position, position, tolerance));
    }
}

/// Hit-testing a position from which every stored point is at least the
/// tolerance away finds none: the result is the number of points.
pub proof fn lemma_hit_test_misses(model: ModelView, position: Position, tolerance: int)
    requires
        forall|j: int|
            0 <= j < model.points.len() ==> !within(
                (#[trigger] model.points[j]).position,
                position,
                tolerance,
            ),
    ensures
        model.hit_test(position, tolerance) == model.points.len(),
{
    lemma_first_within(model.points, position, tolerance, 0);
}

/// A copy of a list of primitives.
pub fn copy_of(prims: &Vec<Primitive>) -> (copy: Vec<Primitive>)
    ensures
        copy@ == prims@,
{
    let mut copy: Vec<Primitive> = Vec::with_capacity(prims.len());
    let mut i: usize = 0;
    while i < prims.len()
        invariant
            i <= prims@.len(),
            copy@ == prims@.subrange(0, i as int),
        decreases prims@.len() - i,
    {
        copy.push(prims[i]);
        assert(copy@ =~= prims@.subrange(0, i + 1));
        i += 1;
    }
    assert(prims@.subrange(0, i as int) =~= prims@);
    copy
}

impl Clone for Model {
    fn clone(&self) -> (copy: Model)
        ensures
            copy@ == self@,
    {
        let points = self.points.clone();
        assert(points@ =~= self.points@);
        Model { points, prims: copy_of(&self.prims) }
    }
}

impl Default for Model {
    /// An empty store.
    fn default() -> (model: Model)
        ensures
            model@.points == Seq::<Point>::empty(),
            model@.prims == Seq::<Primitive>::empty(),
    {
        Model::new()
    }
}

impl Model {
    /// An empty store.
    pub fn new() -> (model: Model)
        ensures
            model@.points == Seq::<Point>::empty(),
            model@.prims == Seq::<Primitive>::empty(),
            model@.well_formed(),
    {
        Model { points: Vec::new(), prims: Vec::new() }
    }

    /// Finds the first point that lies closer to `position` than
    /// `tolerance`. Where there is none the result is the number of
    /// points, which is the index that the next inserted point gets.
    pub fn hit_test(&self, position: Position, tolerance: u64) -> (index: usize)
        ensures
            index == self@.hit_test(position, tolerance as int),
            index <= self.points@.len(),
            index < self.points@.len() ==> within(
                self.points@[index as int].position,
                position,
                tolerance as int,
            ),
            forall|j: int|
                0 <= j < index ==> !within(
                    (#[trigger] self.points@[j]).position,
                    position,
                    tolerance as int,
                ),
    {
        let mut i: usize = 0;
        while i < self.points.len()
            invariant
                i <= self.points@.len(),
                first_within(self.points@, position, tolerance as int, i as int) == first_within(
                    self.points@,
                    position,
                    tolerance as int,
                    0,
                ),
            decreases self.points@.len() - i,
        {
            if self.points[i].position.is_within(position, tolerance) {
                proof {
                    lemma_first_within(self.points@, position, tolerance as int, 0);
                }
                return i;
            }
            i += 1;
        }
        proof {
            lemma_first_within(self.points@, position, tolerance as int, 0);
        }
        i
    }

    /// Hit-tests with the tolerance that goes with a display scale: twice
    /// the scale.
    pub fn find_point(&self, point: Position, scale: u32) -> (index: usize)
        ensures
            index == self@.hit_test(point, 2 * scale),
            index <= self.points@.len(),
    {
        self.hit_test(point, 2 * (scale as u64))
    }

    /// The corners of the smallest box that holds every point; for an
    /// empty store the box from (0, 0) to (1000, 1000).
    pub fn find_min_max(&self) -> (corners: (Position, Position))
        ensures
            self.points@.len() == 0 ==> corners == (
                Position { x: 0, y: 0 },
                Position { x: 1000, y: 1000 },
            ),
            self.points@.len() > 0 ==> is_bounding_box(self.points@, corners.0, corners.1),
    {
        if self.points.len() == 0 {
            return (Position { x: 0, y: 0 }, Position { x: 1000, y: 1000 });
        }
        let first = self.points[0].position;
        let mut min = first;
        let mut max = first;
        let mut i: usize = 1;
        assert(self.points@.subrange(0, 1)[0] == self.points@[0]);
        while i < self.points.len()
            invariant
                1 <= i <= self.points@.len(),
                is_bounding_box(self.points@.subrange(0, i as int), min, max),
            decreases self.points@.len() - i,
        {
            let ghost seen = self.points@.subrange(0, i as int);
            let ghost next = self.points@.subrange(0, i + 1);
            let ghost witness_low_x = choose|k: int|
                0 <= k < seen.len() && (#[trigger] seen[k]).position.x == min.x;
            let ghost witness_low_y = choose|k: int|
                0 <= k < seen.len() && (#[trigger] seen[k]).position.y == min.y;
            let ghost witness_high_x = choose|k: int|
                0 <= k < seen.len() && (#[trigger] seen[k]).position.x == max.x;
            let ghost witness_high_y = choose|k: int|
                0 <= k < seen.len() && (#[trigger] seen[k]).position.y == max.y;
            let position = self.points[i].position;
            if position.x < min.x {
                min.x = position.x;
            }
            if position.y < min.y {
                min.y = position.y;
            }
            if position.x > max.x {
                max.x = position.x;
            }
            if position.y > max.y {
                max.y = position.y;
            }
            proof {
                assert(forall|k: int| 0 <= k < i ==> next[k] == seen[k]);
                assert(next[i as int] == self.points@[i as int]);
                assert(next[witness_low_x] == seen[witness_low_x]);
                assert(next[witness_low_y] == seen[witness_low_y]);
                assert(next[witness_high_x] == seen[witness_high_x]);
                assert(next[witness_high_y] == seen[witness_high_y]);
            }
            i += 1;
        }
        assert(self.points@.subrange(0, i as int) =~= self.points@);
        (min, max)
    }

    /// Appends a point and returns its index.
    pub fn insert_point(&mut self, point: Point) -> (index: usize)
        ensures
            index == old(self).points@.len(),
            final(self)@ == old(self)@.insert_point(point),
            old(self)@.well_formed() ==> final(self)@.well_formed(),
    {
        let index = self.points.len();
        self.points.push(point);
        proof {
            if old(self)@.well_formed() {
                assert forall|i: int| 0 <= i < self@.prims.len() implies valid_primitive(
                    #[trigger] self@.prims[i],
                    self@.points.len() as int,
                ) by {
                    assert(valid_primitive(old(self)@.prims[i], old(self)@.points.len() as int));
                }
            }
        }
        index
    }

    /// Appends the primitive `(a, b, c)`, where `c` is the index of a
    /// third point or [`SENTINEL`]. A primitive of which two entries are
    /// equal, or which references a point that is not stored, is refused
    /// and the store stays as it is.
    pub fn insert_primitive(&mut self, a: i32, b: i32, c: i32) -> (outcome: Result<
        (),
        PrimitiveError,
    >)
        ensures
            outcome is Ok <==> valid_primitive((a, b, c), old(self).points@.len() as int),
            outcome == Err::<(), PrimitiveError>(PrimitiveError::Degenerate) <==> !distinct(a, b, c),
            outcome is Ok ==> final(self)@ == old(self)@.insert_primitive((a, b, c)),
            outcome is Err ==> final(self)@ == old(self)@,
            old(self)@.well_formed() ==> final(self)@.well_formed(),
    {
        if a == b || a == c || b == c {
            return Err(PrimitiveError::Degenerate);
        }
        if !self.holds(a) || !self.holds(b) || (c != SENTINEL && !self.holds(c)) {
            return Err(PrimitiveError::OutOfRange);
        }
        self.prims.push((a, b, c));
        Ok(())
    }

    /// Makes every reference to the point at `one` a reference to the
    /// point at `two`, and the reverse.
    pub fn replace_prim(&mut self, one: usize, two: usize)
        requires
            one <= i32::MAX,
            two <= i32::MAX,
        ensures
            final(self)@ == old(self)@.replace_prim(one as int, two as int),
            old(self)@.well_formed() && one < old(self).points@.len() && two < old(
                self,
            ).points@.len() ==> final(self)@.well_formed(),
    {
        let mut i: usize = 0;
        while i < self.prims.len()
            invariant
                one <= i32::MAX,
                two <= i32::MAX,
                i <= self.prims@.len(),
                self.points@ == old(self).points@,
                self.prims@.len() == old(self).prims@.len(),
                forall|k: int|
                    0 <= k < i ==> #[trigger] self.prims@[k] == swapped_primitive(
                        old(self).prims@[k],
                        one as int,
                        two as int,
                    ),
                forall|k: int| i <= k < self.prims@.len() ==> self.prims@[k] == old(self).prims@[k],
            decreases self.prims@.len() - i,
        {
            let primitive = self.prims[i];
            let swapped = (
                swap_reference(primitive.0, one, two),
                swap_reference(primitive.1, one, two),
                swap_reference(primitive.2, one, two),
            );
            self.prims.set(i, swapped);
            i += 1;
        }
        assert(self@.prims =~= old(self)@.replace_prim(one as int, two as int).prims);
    }

    /// Removes the point at `index` together with every primitive that
    /// references it. The last point takes the place of the removed one,
    /// and the references to it follow. Returns what reverses the removal,
    /// in the order in which it is to be recorded. An `index` that names
    /// no point changes nothing and yields no record.
    pub fn remove_point(&mut self, index: usize) -> (records: Vec<UndoRecord>)
        ensures
            index >= old(self).points@.len() ==> final(self)@ == old(self)@ && records@
                == Seq::<UndoRecord>::empty(),
            index < old(self).points@.len() ==> final(self)@ == old(self)@.remove_point(
                index as int,
            ) && records@ == old(self)@.removal_records(index as int),
            old(self)@.well_formed() ==> final(self)@.well_formed(),
    {
        let mut records: Vec<UndoRecord> = Vec::new();
        if index >= self.points.len() {
            return records;
        }
        let mut i: usize = self.prims.len();
        while i > 0
            invariant
                i <= self.prims@.len(),
                records@ == removed_from(self.prims@, index as int, i as int),
            decreases i,
        {
            i -= 1;
            let primitive = self.prims[i];
            if refers(primitive, index) {
                records.push(UndoRecord::PrimitiveRemoved { primitive, index: i });
            }
        }
        let mut kept: Vec<Primitive> = Vec::new();
        let mut k: usize = 0;
        assert(self.prims@.subrange(0, 0) =~= Seq::<Primitive>::empty());
        assert(without_references(Seq::<Primitive>::empty(), index as int) =~= Seq::<
            Primitive,
        >::empty()) by {
            reveal(Seq::filter);
        }
        while k < self.prims.len()
            invariant
                k <= self.prims@.len(),
                kept@ == without_references(self.prims@.subrange(0, k as int), index as int),
            decreases self.prims@.len() - k,
        {
            let primitive = self.prims[k];
            proof {
                let seen = self.prims@.subrange(0, k as int);
                assert(self.prims@.subrange(0, k + 1) =~= seen.push(primitive));
                seen.lemma_filter_push(primitive, spares(index as int));
            }
            if !refers(primitive, index) {
                kept.push(primitive);
            }
            k += 1;
        }
        assert(self.prims@.subrange(0, k as int) =~= self.prims@);
        records.push(UndoRecord::PointRemoved { point: self.points[index], index });
        self.prims = kept;
        self.points.swap_remove(index);
        let last = self.points.len();
        proof {
            lemma_removal_keeps_integrity(old(self)@, index as int);
        }
        if index != last && last <= i32::MAX as usize {
            self.replace_prim(last, index);
        } else {
            proof {
                lemma_swap_spares(old(self)@.prims, index as int, last as int);
                assert(self@.prims =~= self@.replace_prim(last as int, index as int).prims);
            }
        }
        records
    }

    /// Whether the store has referential integrity.
    pub fn is_well_formed(&self) -> (sound: bool)
        ensures
            sound == self@.well_formed(),
    {
        let mut i: usize = 0;
        while i < self.prims.len()
            invariant
                i <= self.prims@.len(),
                forall|k: int|
                    0 <= k < i ==> valid_primitive(
                        #[trigger] self.prims@[k],
                        self.points@.len() as int,
                    ),
            decreases self.prims@.len() - i,
        {
            let primitive = self.prims[i];
            let sound = self.holds(primitive.0) && self.holds(primitive.1) && primitive.0
                != primitive.1 && (primitive.2 == SENTINEL || (self.holds(primitive.2)
                && primitive.2 != primitive.0 && primitive.2 != primitive.1));
            if !sound {
                assert(!valid_primitive(self@.prims[i as int], self@.points.len() as int));
                return false;
            }
            i += 1;
        }
        true
    }

    /// Whether some primitive references the point at `index`.
    pub fn is_referenced(&self, index: usize) -> (referenced: bool)
        ensures
            referenced == exists|i: int|
                0 <= i < self.prims@.len() && references(#[trigger] self.prims@[i], index as int),
    {
        let mut i: usize = 0;
        while i < self.prims.len()
            invariant
                i <= self.prims@.len(),
                forall|k: int| 0 <= k < i ==> !references(#[trigger] self.prims@[k], index as int),
            decreases self.prims@.len() - i,
        {
            if refers(self.prims[i], index) {
                return true;
            }
            i += 1;
        }
        false
    }

    /// Whether `reference` is the index of a stored point.
    pub fn holds(&self, reference: i32) -> (stored: bool)
        ensures
            stored == (0 <= reference < self.points@.len()),
    {
        reference >= 0 && (reference as usize) < self.points.len()
    }
}

} // verus!
