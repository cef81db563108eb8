//! The messages that drive the editor: the edit intents that gestures
//! produce, and the commands of the user.

use vstd::prelude::*;
use crate::drawing::Tool;
use crate::model::Position;

verus! {

/// A message to the editor.
#[derive(Clone, Copy, Debug, PartialEq, Eq, Structural)]
pub enum Message {
    /// Pick another tool.
    ChangeMode(Tool),
    /// Empty the drawing.
    ClearAll,
    /// Reverse the most recent mutation.
    Undo,
    /// Select the point at this position; where there is none, create it
    /// first.
    DefPoint(Position),
    /// Create the segment between two positions or, with a third, the arc
    /// over the three. Each position stands for the point found there,
    /// or for a new one.
    DefPrim(Position, Position, Option<Position>),
    /// Drop the selection.
    DefUnselect,
    /// Set one value of the pending edit of the selected point: 0 is its
    /// x, 1 its y, 2 its radius.
    ChangePoint(usize, i32),
    /// Write the pending edit into the selected point.
    ChangeApply,
    /// Set the display scale, from which the hit tolerance is taken.
    EditScale(u32),
    /// Set the radius that new points get.
    EditCircle(i32),
    /// Delete the selected point.
    DeletePoint,
    /// Show the rectangle between two corners. `anchor` is where the
    /// drag began and is in screen space; `corner` is in model space. An
    /// unforced request may be dropped by the view when the rectangle is
    /// too small.
    SetZoom { anchor: Position, corner: Position, force: bool },
}

} // verus!
