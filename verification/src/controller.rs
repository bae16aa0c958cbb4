//! The mouse-gesture state machine.
//!
//! At most one gesture is active at a time: drawing with the left button,
//! erasing with the right, panning with the middle. A press while another
//! gesture is active is ignored, as is a release of a button that is not the
//! active one; the matching release returns to [`Gesture::Idle`].

use crate::event::MouseButton;
use vstd::prelude::*;

verus! {

/// The active mouse gesture.
#[derive(Clone, Copy, PartialEq, Eq, Structural, Debug)]
pub enum Gesture {
    Idle,
    Drawing,
    Erasing,
    Moving,
}

/// Gesture state plus the last known mouse position, in window pixels.
#[derive(Clone, Copy, PartialEq, Eq, Structural, Debug)]
pub struct Controller {
    pub gesture: Gesture,
    pub last_x: i32,
    pub last_y: i32,
}

impl Controller {
    /// The gesture after a press of `b`: a gesture begins only from `Idle`;
    /// a second button while one is held is ignored.
    pub open spec fn pressed(self, b: MouseButton) -> Gesture {
        if self.gesture == Gesture::Idle {
            match b {
                MouseButton::Left => Gesture::Drawing,
                MouseButton::Right => Gesture::Erasing,
                MouseButton::Middle => Gesture::Moving,
            }
        } else {
            self.gesture
        }
    }

    /// Whether a release of `b` ends the active gesture.
    pub open spec fn ends_gesture(self, b: MouseButton) -> bool {
        match (self.gesture, b) {
            (Gesture::Drawing, MouseButton::Left) => true,
            (Gesture::Erasing, MouseButton::Right) => true,
            (Gesture::Moving, MouseButton::Middle) => true,
            _ => false,
        }
    }

    /// The gesture after a release of `b`: back to `Idle` on the matching
    /// button, unchanged on any other.
    pub open spec fn released(self, b: MouseButton) -> Gesture {
        if self.ends_gesture(b) {
            Gesture::Idle
        } else {
            self.gesture
        }
    }

    /// The controller at startup: idle, pointer at the origin.
    pub fn new() -> (c: Controller)
        ensures
            c.gesture == Gesture::Idle,
            c.last_x == 0,
            c.last_y == 0,
    {
        Controller { gesture: Gesture::Idle, last_x: 0, last_y: 0 }
    }
}

} // verus!
