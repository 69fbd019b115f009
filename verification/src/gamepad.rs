//! Normalized input state and the event dispatch that fills it.
//!
//! The engine consumes a device-agnostic stream of gamepad events: one
//! action button and four named analog axes. Each event overwrites one
//! field of [`GamepadState`] (last write wins); everything else is
//! ignored.

use vstd::prelude::*;

verus! {

use crate::fixed::SCALE;
use crate::vec::Vec2;

/// The normalized input state: two analog axis pairs and the jump flag.
/// Axis values use the fixed-point scale, so `1000` stands for a fully
/// deflected axis.
#[derive(Clone, Copy, PartialEq, Eq, Structural, Debug)]
pub struct GamepadState {
    /// Right stick: drives the camera.
    pub cam: Vec2,
    /// Left stick: drives the agent.
    pub joy: Vec2,
    /// Action flag: held while the action button is fully pressed.
    pub jump: bool,
}

impl Default for GamepadState {
    fn default() -> (r: Self)
        ensures
            r.cam.x == 0,
            r.cam.y == 0,
            r.joy.x == 0,
            r.joy.y == 0,
            !r.jump,
    {
        Self { cam: Vec2 { x: 0, y: 0 }, joy: Vec2 { x: 0, y: 0 }, jump: false }
    }
}

/// The closed set of input events the engine consumes. Values are
/// fixed-point: a full press or deflection reports `SCALE`.
#[derive(Clone, Copy, PartialEq, Eq, Structural, Debug)]
pub enum GamepadEvent {
    /// The action button; the jump flag is set exactly while the
    /// reported value is a full press.
    ButtonSouth { value: i64 },
    /// Left stick, horizontal.
    LeftStickX { value: i64 },
    /// Left stick, vertical.
    LeftStickY { value: i64 },
    /// Right stick, horizontal.
    RightStickX { value: i64 },
    /// Right stick, vertical.
    RightStickY { value: i64 },
    /// Any other device event: observed, never consumed.
    Other,
}

/// The state after one event: exactly one field overwritten, or none.
pub open spec fn apply_event(s: GamepadState, e: GamepadEvent) -> GamepadState {
    match e {
        GamepadEvent::ButtonSouth { value } => GamepadState { jump: value == SCALE, ..s },
        GamepadEvent::LeftStickX { value } => GamepadState { joy: Vec2 { x: value, ..s.joy }, ..s },
        GamepadEvent::LeftStickY { value } => GamepadState { joy: Vec2 { y: value, ..s.joy }, ..s },
        GamepadEvent::RightStickX { value } => GamepadState { cam: Vec2 { x: value, ..s.cam }, ..s },
        GamepadEvent::RightStickY { value } => GamepadState { cam: Vec2 { y: value, ..s.cam }, ..s },
        GamepadEvent::Other => s,
    }
}

/// The state after a whole event batch, applied in order.
pub open spec fn apply_events(s: GamepadState, es: Seq<GamepadEvent>) -> GamepadState
    decreases es.len(),
{
    if es.len() == 0 {
        s
    } else {
        apply_event(apply_events(s, es.drop_last()), es.last())
    }
}

/// Folds a batch of device events into the input state, in order;
/// later events overwrite earlier ones on the same field.
pub fn gamepad_update(gamepad_state: &mut GamepadState, events: &Vec<GamepadEvent>)
    ensures
        *final(gamepad_state) == apply_events(*old(gamepad_state), events@),
{
    let mut i: usize = 0;
    while i < events.len()
        invariant
            i <= events@.len(),
            *gamepad_state == apply_events(*old(gamepad_state), events@.take(i as int)),
        decreases events@.len() - i,
    {
        match events[i] {
            GamepadEvent::ButtonSouth { value } => {
                gamepad_state.jump = value == SCALE;
            },
            GamepadEvent::LeftStickX { value } => {
                gamepad_state.joy.x = value;
            },
            GamepadEvent::LeftStickY { value } => {
                gamepad_state.joy.y = value;
            },
            GamepadEvent::RightStickX { value } => {
                gamepad_state.cam.x = value;
            },
            GamepadEvent::RightStickY { value } => {
                gamepad_state.cam.y = value;
            },
            GamepadEvent::Other => {},
        }
        proof {
            assert(events@.take(i + 1).drop_last() =~= events@.take(i as int));
            assert(events@.take(i + 1).last() == events@[i as int]);
        }
        i = i + 1;
    }
    proof {
        assert(events@.take(events@.len() as int) =~= events@);
    }
}

} // verus!
