//! The drawing written out as plain text: a table of the points and a
//! table of the primitives, one line each, the values parted by tabs.

use vstd::prelude::*;
use crate::model::Model;
use crate::model::ModelView;
use crate::model::Point;
use crate::model::Primitive;

verus! {

/// The byte of the tab that parts the values of a line.
pub const TAB: u8 = 9;

/// The byte that ends a line.
pub const NEWLINE: u8 = 10;

/// The decimal digits of `n`, the most significant first, as text.
pub open spec fn digits(n: nat) -> Seq<u8>
    decreases n,
{
    if n < 10 {
        seq![(48 + n) as u8]
    } else {
        digits(n / 10).push((48 + n % 10) as u8)
    }
}

/// The number `value` as text: its digits, after a minus sign where it
/// is negative.
pub open spec fn decimal(value: int) -> Seq<u8> {
    if value < 0 {
        seq![45u8] + digits((-value) as nat)
    } else {
        digits(value as nat)
    }
}

/// A line of three numbers.
pub open spec fn line_of(first: int, second: int, third: int) -> Seq<u8> {
    decimal(first) + seq![TAB] + decimal(second) + seq![TAB] + decimal(third) + seq![NEWLINE]
}

/// The lines of the points: position and radius of each.
pub open spec fn points_text(points: Seq<Point>) -> Seq<u8>
    decreases points.len(),
{
    if points.len() == 0 {
        Seq::empty()
    } else {
        points_text(points.drop_last()) + line_of(
            points.last().position.x as int,
            points.last().position.y as int,
            points.last().radius as int,
        )
    }
}

/// The lines of the primitives: the three references of each.
pub open spec fn prims_text(prims: Seq<Primitive>) -> Seq<u8>
    decreases prims.len(),
{
    if prims.len() == 0 {
        Seq::empty()
    } else {
        prims_text(prims.drop_last()) + line_of(
            prims.last().0 as int,
            prims.last().1 as int,
            prims.last().2 as int,
        )
    }
}

/// The heading of the table of points: `p1`, `p2` and `r`.
pub open spec fn points_heading() -> Seq<u8> {
    seq![112u8, 49u8, TAB, 112u8, 50u8, TAB, 114u8, NEWLINE]
}

/// The heading of the table of primitives: `l1`, `l2` and `l3`.
pub open spec fn prims_heading() -> Seq<u8> {
    seq![108u8, 49u8, TAB, 108u8, 50u8, TAB, 108u8, 51u8, NEWLINE]
}

/// The drawing as text: the table of the points under its heading, then
/// the table of the primitives under its heading.
pub open spec fn export_text(model: ModelView) -> Seq<u8> {
    points_heading() + points_text(model.points) + prims_heading() + prims_text(model.prims)
}

/// Appends the decimal digits of `n`.
fn push_digits(out: &mut Vec<u8>, n: u64)
    ensures
        final(out)@ == old(out)@ + digits(n as nat),
    decreases n,
{
    if n >= 10 {
        push_digits(out, n / 10);
    }
    out.push(48 + (n % 10) as u8);
    assert(out@ =~= old(out)@ + digits(n as nat));
}

/// Appends the number `value` as text.
pub fn push_decimal(out: &mut Vec<u8>, value: i32)
    ensures
        final(out)@ == old(out)@ + decimal(value as int),
{
    let wide: i64 = value as i64;
    if wide < 0 {
        out.push(45);
        push_digits(out, (-wide) as u64);
    } else {
        push_digits(out, wide as u64);
    }
    assert(out@ =~= old(out)@ + decimal(value as int));
}

/// Appends a line of three numbers.
fn push_line(out: &mut Vec<u8>, first: i32, second: i32, third: i32)
    ensures
        final(out)@ == old(out)@ + line_of(first as int, second as int, third as int),
{
    push_decimal(out, first);
    out.push(TAB);
    push_decimal(out, second);
    out.push(TAB);
    push_decimal(out, third);
    out.push(NEWLINE);
    assert(out@ =~= old(out)@ + line_of(first as int, second as int, third as int));
}

impl Model {
    /// Writes the drawing out as text.
    pub fn export(&self) -> (output: Vec<u8>)
        ensures
            output@ == export_text(self@),
    {
        let mut output: Vec<u8> = Vec::new();
        output.push(112);
        output.push(49);
        output.push(TAB);
        output.push(112);
        output.push(50);
        output.push(TAB);
        output.push(114);
        output.push(NEWLINE);
        assert(output@ =~= points_heading());
        let mut i: usize = 0;
        assert(self.points@.subrange(0, 0) =~= Seq::<Point>::empty());
        assert(output@ =~= points_heading() + points_text(self.points@.subrange(0, 0)));
        while i < self.points.len()
            invariant
                i <= self.points@.len(),
                output@ == points_heading() + points_text(self.points@.subrange(0, i as int)),
            decreases self.points@.len() - i,
        {
            let point = self.points[i];
            assert(self.points@.subrange(0, i + 1).drop_last() =~= self.points@.subrange(
                0,
                i as int,
            ));
            push_line(&mut output, point.position.x, point.position.y, point.radius);
            assert(output@ =~= points_heading() + points_text(self.points@.subrange(0, i + 1)));
            i += 1;
        }
        assert(self.points@.subrange(0, i as int) =~= self.points@);
        let ghost first_table = output@;
        output.push(108);
        output.push(49);
        output.push(TAB);
        output.push(108);
        output.push(50);
        output.push(TAB);
        output.push(108);
        output.push(51);
        output.push(NEWLINE);
        assert(output@ =~= first_table + prims_heading());
        let mut k: usize = 0;
        assert(self.prims@.subrange(0, 0) =~= Seq::<Primitive>::empty());
        assert(output@ =~= first_table + prims_heading() + prims_text(
            self.prims@.subrange(0, 0),
        ));
        while k < self.prims.len()
            invariant
                k <= self.prims@.len(),
                output@ == first_table + prims_heading() + prims_text(
                    self.prims@.subrange(0, k as int),
                ),
            decreases self.prims@.len() - k,
        {
            let line = self.prims[k];
            assert(self.prims@.subrange(0, k + 1).drop_last() =~= self.prims@.subrange(
                0,
                k as int,
            ));
            push_line(&mut output, line.0, line.1, line.2);
            assert(output@ =~= first_table + prims_heading() + prims_text(
                self.prims@.subrange(0, k + 1),
            ));
            k += 1;
        }
        assert(self.prims@.subrange(0, k as int) =~= self.prims@);
        output
    }
}

} // verus!
