//! The closed set of input events the simulator consumes.
//!
//! The windowing layer is expected to normalize whatever it polls into this
//! tagged type and deliver the events one at a time, in arrival order.
//! Positions are window pixels; scroll deltas are ticks.

use vstd::prelude::*;

verus! {

/// A mouse button. Buttons beyond these three never reach the simulator.
#[derive(Clone, Copy, PartialEq, Eq, Structural, Debug)]
pub enum MouseButton {
    Left,
    Right,
    Middle,
}

/// A key binding the simulator recognizes; any other key arrives as `Other`
/// and is ignored.
#[derive(Clone, Copy, PartialEq, Eq, Structural, Debug)]
pub enum Key {
    /// Re-randomize the grid.
    R,
    /// Clear the grid.
    C,
    /// Toggle running/paused.
    S,
    /// Fit the grid to the window.
    F,
    /// Advance one generation, running or not.
    Space,
    /// Anything else.
    Other,
}

/// One input event, delivered synchronously by the driving loop.
#[derive(Clone, Copy, PartialEq, Eq, Structural, Debug)]
pub enum Event {
    /// One simulation tick: advance a generation when running.
    Update,
    /// One render tick: no state change; the driver reads the frame.
    Render,
    /// The window was resized.
    Resize { w: i32, h: i32 },
    /// A key went down.
    KeyPress { key: Key },
    /// A mouse button went down at a screen position.
    MousePress { button: MouseButton, x: i32, y: i32 },
    /// A mouse button went up at a screen position.
    MouseRelease { button: MouseButton, x: i32, y: i32 },
    /// The pointer moved to a screen position.
    MouseMove { x: i32, y: i32 },
    /// The scroll wheel turned by `delta` ticks.
    MouseScroll { delta: i32 },
}

} // verus!
