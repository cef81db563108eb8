//! The tools and the state of a gesture that is under way.

use vstd::prelude::*;
use crate::model::Position;

verus! {

/// The tool that the user has picked.
#[derive(Clone, Copy, Debug, PartialEq, Eq, Structural)]
pub enum Tool {
    Move,
    Point,
    Line,
    Arc,
}

impl Tool {
    /// The name under which the tool is offered.
    pub open spec fn name(self) -> Seq<char> {
        match self {
            Tool::Move => "Move"@,
            Tool::Point => "Point"@,
            Tool::Line => "Line"@,
            Tool::Arc => "Arc"@,
        }
    }

    /// The name under which the tool is offered.
    pub fn as_str(&self) -> (name: &'static str)
        ensures
            name@ == self.name(),
    {
        match self {
            Tool::Move => "Move",
            Tool::Point => "Point",
            Tool::Line => "Line",
            Tool::Arc => "Arc",
        }
    }
}

/// The state of a gesture: what has been captured of a construction that
/// takes several clicks. A captured anchor holds the position that was
/// clicked and, where it was taken from a stored point, that point's
/// index.
#[allow(inconsistent_fields)]
#[derive(Clone, Copy, Debug, PartialEq, Eq, Structural)]
pub enum Drawing {
    /// No gesture is under way.
    Idle,
    /// The line tool waits for its first anchor.
    Line,
    /// The line tool holds one anchor.
    LinePoint { point: Position, num: Option<usize> },
    /// The arc tool waits for its first anchor.
    Arc,
    /// The arc tool holds one anchor.
    ArcPoint { point: Position, num: Option<usize> },
    /// The arc tool holds two anchors.
    ArcTwoPoints {
        point_one: Position,
        num_one: Option<usize>,
        point_two: Position,
        num_two: Option<usize>,
    },
    /// The point tool waits for a click.
    Point,
    /// A single point is selected.
    SelectPoint { point: Position, num: usize },
    /// A rectangle is being dragged open to zoom into; the corner where
    /// the drag began is kept in screen space.
    Scaling { starting_point: Position },
}

impl Default for Drawing {
    fn default() -> (state: Drawing)
        ensures
            state == Drawing::Idle,
    {
        Drawing::Idle
    }
}

impl Drawing {
    /// The tool that the state belongs to. A selection and a zoom drag
    /// count as states of the move tool.
    pub open spec fn tool_of(self) -> Tool {
        match self {
            Drawing::Point => Tool::Point,
            Drawing::Line | Drawing::LinePoint { .. } => Tool::Line,
            Drawing::Arc | Drawing::ArcPoint { .. } | Drawing::ArcTwoPoints { .. } => Tool::Arc,
            _ => Tool::Move,
        }
    }

    /// The state in which `mode` waits for its first click.
    pub open spec fn armed(mode: Tool) -> Drawing {
        match mode {
            Tool::Point => Drawing::Point,
            Tool::Line => Drawing::Line,
            Tool::Arc => Drawing::Arc,
            Tool::Move => Drawing::Idle,
        }
    }

    /// The state after it has been brought in line with the tool `mode`:
    /// a state of that tool stays; towards the line or the arc tool a
    /// selected point and a single anchor of the other become that tool's
    /// single anchor; towards any other tool pending anchors are dropped.
    pub open spec fn reconciled(self, mode: Tool) -> Drawing {
        if self.tool_of() == mode {
            self
        } else {
            match (mode, self) {
                (Tool::Line, Drawing::SelectPoint { point, num }) => Drawing::LinePoint {
                    point,
                    num: Some(num),
                },
                (Tool::Line, Drawing::ArcPoint { point, num }) => Drawing::LinePoint { point, num },
                (Tool::Line, _) => self,
                (Tool::Arc, Drawing::SelectPoint { point, num }) => Drawing::ArcPoint {
                    point,
                    num: Some(num),
                },
                (Tool::Arc, Drawing::LinePoint { point, num }) => Drawing::ArcPoint { point, num },
                (Tool::Arc, _) => self,
                (_, Drawing::LinePoint { .. }) => Drawing::Idle,
                (_, Drawing::ArcPoint { .. }) => Drawing::Idle,
                (_, Drawing::ArcTwoPoints { .. }) => Drawing::Idle,
                (_, _) => self,
            }
        }
    }

    /// The tool that the state belongs to.
    pub fn tool(&self) -> (tool: Tool)
        ensures
            tool == self.tool_of(),
    {
        match self {
            Drawing::Point => Tool::Point,
            Drawing::Line | Drawing::LinePoint { .. } => Tool::Line,
            Drawing::Arc | Drawing::ArcPoint { .. } | Drawing::ArcTwoPoints { .. } => Tool::Arc,
            _ => Tool::Move,
        }
    }

    /// The name of the tool that the state belongs to.
    pub fn as_str(&self) -> (name: &'static str)
        ensures
            name@ == self.tool_of().name(),
    {
        self.tool().as_str()
    }

    /// The state in which `mode` waits for its first click.
    pub fn arm(mode: Tool) -> (state: Drawing)
        ensures
            state == Drawing::armed(mode),
    {
        match mode {
            Tool::Point => Drawing::Point,
            Tool::Line => Drawing::Line,
            Tool::Arc => Drawing::Arc,
            Tool::Move => Drawing::Idle,
        }
    }

    /// Brings the state in line with the tool `mode`, which the user may
    /// have changed since the last event.
    pub fn reconcile(&mut self, mode: Tool)
        ensures
            *final(self) == old(self).reconciled(mode),
    {
        if self.tool() == mode {
            return ;
        }
        match mode {
            Tool::Line => {
                match *self {
                    Drawing::SelectPoint { point, num } => {
                        *self = Drawing::LinePoint { point, num: Some(num) };
                    },
                    Drawing::ArcPoint { point, num } => {
                        *self = Drawing::LinePoint { point, num };
                    },
                    _ => {},
                }
            },
            Tool::Arc => {
                match *self {
                    Drawing::SelectPoint { point, num } => {
                        *self = Drawing::ArcPoint { point, num: Some(num) };
                    },
                    Drawing::LinePoint { point, num } => {
                        *self = Drawing::ArcPoint { point, num };
                    },
                    _ => {},
                }
            },
            _ => {
                match *self {
                    Drawing::LinePoint { .. }
                    | Drawing::ArcPoint { .. }
                    | Drawing::ArcTwoPoints { .. } => {
                        *self = Drawing::Idle;
                    },
                    _ => {},
                }
            },
        }
    }
}

} // verus!
