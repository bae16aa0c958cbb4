//! The simulation clock: a running/paused flag and nothing else.
//!
//! The grid advances only on an externally delivered update tick while
//! running, or on an explicit single-step request; ticks are never batched
//! or skipped.

use vstd::prelude::*;

verus! {

/// Running/paused state of the simulation.
#[derive(Clone, Copy, PartialEq, Eq, Structural, Debug)]
pub struct Clock {
    pub running: bool,
}

impl Clock {
    /// The clock at startup: paused.
    pub fn new() -> (c: Clock)
        ensures
            !c.running,
    {
        Clock { running: false }
    }

    /// Flip the running flag.
    pub fn toggle_running(&mut self)
        ensures
            final(self).running == !old(self).running,
    {
        self.running = !self.running;
    }
}

} // verus!
