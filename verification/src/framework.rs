//! The gesture state machine: it turns mouse events, under the tool that
//! is active, into edit intents.

use vstd::prelude::*;
use crate::drawing::Drawing;
use crate::drawing::Tool;
use crate::message::Message;
use crate::model::Model;
use crate::model::ModelView;
use crate::model::Point;
use crate::model::Position;

verus! {

/// What the mouse did.
#[derive(Clone, Copy, Debug, PartialEq, Eq, Structural)]
pub enum MouseEvent {
    LeftPressed,
    LeftReleased,
    RightPressed,
    /// Any other mouse event: a move, a wheel turn, another button.
    Other,
}

/// An event that reaches the canvas.
#[derive(Clone, Copy, Debug, PartialEq, Eq, Structural)]
pub enum Event {
    Mouse(MouseEvent),
    /// An event that is not of the mouse.
    Other,
}

/// Whether the canvas made use of an event.
#[derive(Clone, Copy, Debug, PartialEq, Eq, Structural)]
pub enum Status {
    Ignored,
    Captured,
}

/// One sample of the cursor: where it is on the screen, after snapping
/// where that is switched on, and where the view puts that in model
/// space.
#[derive(Clone, Copy, Debug, PartialEq, Eq, Structural)]
pub struct Cursor {
    pub screen: Position,
    pub model: Position,
}

/// The position that an anchor stands for now: that of the stored point
/// it was taken from, if there is such a point, else the position that
/// was clicked.
pub open spec fn live_position(points: Seq<Point>, point: Position, num: Option<usize>) -> Position {
    match num {
        Some(index) if index < points.len() => points[index as int].position,
        _ => point,
    }
}

/// The state and the intent that follow a press of the left button.
pub open spec fn left_pressed(
    state: Drawing,
    mode: Tool,
    model: ModelView,
    scale: u32,
    cursor: Cursor,
) -> (Drawing, Option<Message>) {
    let state = if state.tool_of() != mode {
        Drawing::armed(mode)
    } else {
        state
    };
    match state {
        Drawing::Point => (
            Drawing::SelectPoint {
                point: cursor.model,
                num: model.hit_test(cursor.model, 2 * scale) as usize,
            },
            Some(Message::DefPoint(cursor.model)),
        ),
        Drawing::Line => (Drawing::LinePoint { point: cursor.model, num: None }, None),
        Drawing::LinePoint { point, num } => (
            Drawing::Line,
            Some(Message::DefPrim(live_position(model.points, point, num), cursor.model, None)),
        ),
        Drawing::Arc => (Drawing::ArcPoint { point: cursor.model, num: None }, None),
        Drawing::ArcPoint { point, num } => (
            Drawing::ArcTwoPoints {
                point_one: point,
                num_one: num,
                point_two: cursor.model,
                num_two: None,
            },
            None,
        ),
        Drawing::ArcTwoPoints { point_one, num_one, point_two, num_two } => (
            Drawing::Arc,
            Some(
                Message::DefPrim(
                    live_position(model.points, point_one, num_one),
                    live_position(model.points, point_two, num_two),
                    Some(cursor.model),
                ),
            ),
        ),
        _ => (Drawing::Scaling { starting_point: cursor.screen }, Some(Message::DefUnselect)),
    }
}

/// The state and the intent that follow a release of the left button.
pub open spec fn left_released(state: Drawing, cursor: Cursor) -> (Drawing, Option<Message>) {
    match state {
        Drawing::Scaling { starting_point } => (
            Drawing::Idle,
            Some(Message::SetZoom { anchor: starting_point, corner: cursor.model, force: false }),
        ),
        _ => (state, None),
    }
}

/// The state and the intent that follow a press of the right button.
pub open spec fn right_pressed(state: Drawing, model: ModelView, scale: u32, cursor: Cursor) -> (
    Drawing,
    Option<Message>,
) {
    let hit = model.hit_test(cursor.model, 2 * scale);
    if hit >= model.points.len() {
        (state, None)
    } else {
        let found = model.points[hit].position;
        match state {
            Drawing::LinePoint { point, num } => (
                Drawing::Line,
                Some(Message::DefPrim(live_position(model.points, point, num), found, None)),
            ),
            Drawing::ArcPoint { point, num } => (
                Drawing::ArcTwoPoints {
                    point_one: point,
                    num_one: num,
                    point_two: found,
                    num_two: Some(hit as usize),
                },
                None,
            ),
            Drawing::ArcTwoPoints { point_one, num_one, point_two, num_two } => (
                Drawing::Arc,
                Some(
                    Message::DefPrim(
                        live_position(model.points, point_one, num_one),
                        live_position(model.points, point_two, num_two),
                        Some(found),
                    ),
                ),
            ),
            _ => (
                Drawing::SelectPoint { point: found, num: hit as usize },
                Some(Message::DefPoint(cursor.model)),
            ),
        }
    }
}

/// The state and the intent that follow a mouse event.
pub open spec fn mouse_handled(
    state: Drawing,
    mode: Tool,
    model: ModelView,
    scale: u32,
    mouse_event: MouseEvent,
    cursor: Cursor,
) -> (Drawing, Option<Message>) {
    match mouse_event {
        MouseEvent::LeftPressed => left_pressed(state, mode, model, scale, cursor),
        MouseEvent::LeftReleased => left_released(state, cursor),
        MouseEvent::RightPressed => right_pressed(state, model, scale, cursor),
        MouseEvent::Other => (state, None),
    }
}

/// The state that follows an event, whether the event was made use of,
/// and the intent that it gave rise to. The state is first brought in line
/// with the active tool; then a mouse event with the cursor on the canvas
/// is handled and captured, and any other event is ignored.
pub open spec fn handled(
    state: Drawing,
    mode: Tool,
    model: ModelView,
    scale: u32,
    event: Event,
    cursor: Option<Cursor>,
) -> (Drawing, (Status, Option<Message>)) {
    let state = state.reconciled(mode);
    match (event, cursor) {
        (Event::Mouse(mouse_event), Some(sample)) => {
            let next = mouse_handled(state, mode, model, scale, mouse_event, sample);
            (next.0, (Status::Captured, next.1))
        },
        _ => (state, (Status::Ignored, None)),
    }
}

/// The canvas on which gestures are made: the store that they are made
/// against, the display scale and the active tool.
pub struct Framework<'a> {
    pub model: &'a Model,
    pub scale: u32,
    pub mode: Tool,
}

impl<'a> Framework<'a> {
    /// The position that an anchor stands for now.
    pub fn default_point(&self, point: Position, num: Option<usize>) -> (position: Position)
        ensures
            position == live_position(self.model@.points, point, num),
    {
        match num {
            Some(index) => {
                if index < self.model.points.len() {
                    self.model.points[index].position
                } else {
                    point
                }
            },
            None => point,
        }
    }

    /// Handles one mouse event with the cursor at `cursor`, on a state
    /// that is in line with the active tool.
    pub fn simple_mouse_events(
        &self,
        state: &mut Drawing,
        mouse_event: MouseEvent,
        cursor: Cursor,
    ) -> (outcome: (Status, Option<Message>))
        ensures
            outcome.0 == Status::Captured,
            (*final(state), outcome.1) == mouse_handled(
                *old(state),
                self.mode,
                self.model@,
                self.scale,
                mouse_event,
                cursor,
            ),
    {
        let message = match mouse_event {
            MouseEvent::LeftPressed => {
                if state.tool() != self.mode {
                    *state = Drawing::arm(self.mode);
                }
                match *state {
                    Drawing::Point => {
                        let a = self.model.find_point(cursor.model, self.scale);
                        *state = Drawing::SelectPoint { point: cursor.model, num: a };
                        Some(Message::DefPoint(cursor.model))
                    },
                    Drawing::Line => {
                        *state = Drawing::LinePoint { point: cursor.model, num: None };
                        None
                    },
                    Drawing::LinePoint { point, num } => {
                        *state = Drawing::Line;
                        Some(Message::DefPrim(self.default_point(point, num), cursor.model, None))
                    },
                    Drawing::Arc => {
                        *state = Drawing::ArcPoint { point: cursor.model, num: None };
                        None
                    },
                    Drawing::ArcPoint { point, num } => {
                        *state = Drawing::ArcTwoPoints {
                            point_one: point,
                            num_one: num,
                            point_two: cursor.model,
                            num_two: None,
                        };
                        None
                    },
                    Drawing::ArcTwoPoints { point_one, num_one, point_two, num_two } => {
                        *state = Drawing::Arc;
                        Some(
                            Message::DefPrim(
                                self.default_point(point_one, num_one),
                                self.default_point(point_two, num_two),
                                Some(cursor.model),
                            ),
                        )
                    },
                    _ => {
                        *state = Drawing::Scaling { starting_point: cursor.screen };
                        Some(Message::DefUnselect)
                    },
                }
            },
            MouseEvent::LeftReleased => {
                match *state {
                    Drawing::Scaling { starting_point } => {
                        *state = Drawing::Idle;
                        Some(
                            Message::SetZoom {
                                anchor: starting_point,
                                corner: cursor.model,
                                force: false,
                            },
                        )
                    },
                    _ => None,
                }
            },
            MouseEvent::RightPressed => {
                let a = self.model.find_point(cursor.model, self.scale);
                if a >= self.model.points.len() {
                    None
                } else {
                    let found = self.model.points[a].position;
                    match *state {
                        Drawing::LinePoint { point, num } => {
                            *state = Drawing::Line;
                            Some(Message::DefPrim(self.default_point(point, num), found, None))
                        },
                        Drawing::ArcPoint { point, num } => {
                            *state = Drawing::ArcTwoPoints {
                                point_one: point,
                                num_one: num,
                                point_two: found,
                                num_two: Some(a),
                            };
                            None
                        },
                        Drawing::ArcTwoPoints { point_one, num_one, point_two, num_two } => {
                            *state = Drawing::Arc;
                            Some(
                                Message::DefPrim(
                                    self.default_point(point_one, num_one),
                                    self.default_point(point_two, num_two),
                                    Some(found),
                                ),
                            )
                        },
                        _ => {
                            *state = Drawing::SelectPoint { point: found, num: a };
                            Some(Message::DefPoint(cursor.model))
                        },
                    }
                }
            },
            MouseEvent::Other => None,
        };
        (Status::Captured, message)
    }

    /// Handles one event. The state is first brought in line with the
    /// active tool. A mouse event with the cursor on the canvas is then
    /// handled and captured; any other event is ignored. `cursor` is
    /// `None` while the cursor is off the canvas.
    pub fn update(&self, state: &mut Drawing, event: Event, cursor: Option<Cursor>) -> (outcome: (
        Status,
        Option<Message>,
    ))
        ensures
            (*final(state), outcome) == handled(
                *old(state),
                self.mode,
                self.model@,
                self.scale,
                event,
                cursor,
            ),
    {
        state.reconcile(self.mode);
        match event {
            Event::Mouse(mouse_event) => {
                match cursor {
                    Some(sample) => self.simple_mouse_events(state, mouse_event, sample),
                    None => (Status::Ignored, None),
                }
            },
            Event::Other => (Status::Ignored, None),
        }
    }
}

} // verus!
