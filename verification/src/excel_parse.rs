//! Built-in sample data.

use vstd::prelude::*;
use crate::model::Point;
use crate::model::Position;

verus! {

/// Whether `dot` may stand in the built-in sample: both coordinates lie
/// between 10 and 940 and the radius is 20.
pub open spec fn is_sample_dot(dot: Point) -> bool {
    &&& 10 <= dot.position.x <= 940
    &&& 10 <= dot.position.y <= 940
    &&& dot.radius == 20
}

/// The connections of the built-in sample: three lines that join the
/// first three points into a triangle.
pub fn excel_lines() -> (lines: Vec<(i32, i32)>)
    ensures
        lines@ == seq![(0i32, 1i32), (0i32, 2i32), (1i32, 2i32)],
{
    let mut lines: Vec<(i32, i32)> = Vec::new();
    lines.push((0, 1));
    lines.push((0, 2));
    lines.push((1, 2));
    assert(lines@ =~= seq![(0i32, 1i32), (0i32, 2i32), (1i32, 2i32)]);
    lines
}

/// Calls `rand::random_range` on the inclusive range from `low` to `high`.
/// The outside function draws from the thread's generator, so nothing is
/// claimed of the value but that it lies in the range; an empty range
/// makes it panic and is excluded.
#[verifier::external_body]
fn random_range(low: i32, high: i32) -> (value: i32)
    requires
        low <= high,
    ensures
        low <= value <= high,
{
    rand::random_range(low..=high)
}

/// The points of the built-in sample: 1500 points scattered at random
/// over the square from 10 to 940, each with radius 20.
pub fn excel_dots() -> (dots: Vec<Point>)
    ensures
        dots@.len() == 1500,
        forall|i: int| 0 <= i < dots@.len() ==> is_sample_dot(#[trigger] dots@[i]),
{
    let mut dots: Vec<Point> = Vec::with_capacity(1500);
    let mut i: usize = 0;
    while i < 1500
        invariant
            i <= 1500,
            dots@.len() == i,
            forall|k: int| 0 <= k < dots@.len() ==> is_sample_dot(#[trigger] dots@[k]),
        decreases 1500 - i,
    {
        let x = random_range(10, 940);
        let y = random_range(10, 940);
        dots.push(Point { position: Position { x, y }, radius: 20 });
        i += 1;
    }
    dots
}

} // verus!
