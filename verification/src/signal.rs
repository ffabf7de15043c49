//! The wake primitive of the notification core, reduced to its observable
//! state: a generation counter.
//!
//! A long-poll handler captures the current generation before it starts
//! waiting and is due to wake once the generation has moved on. Firing the
//! signal advances the generation, which wakes every waiter that captured an
//! older one and has no effect on waiters that arrive afterwards: the
//! level-triggered, no-buffering semantics the protocol asks for. The actual
//! blocking lives outside the library, next to the event loop; it wakes
//! sleepers eagerly, and they re-check state here.

use vstd::prelude::*;

verus! {

/// The generation that follows `g`: one more, wrapping at the counter's
/// width. Wrapping keeps the one fact waiters rely on: the next generation
/// is never the one they captured.
pub open spec fn next_generation(g: nat) -> nat {
    if g == u64::MAX {
        0
    } else {
        g + 1
    }
}

/// A broadcast wake channel, represented by the number of times it has
/// fired.
#[derive(Debug)]
pub struct Signal {
    pub generation: u64,
}

impl Signal {
    /// A fresh channel nobody has fired yet.
    pub fn new() -> (s: Signal)
        ensures
            s.generation == 0,
    {
        Signal { generation: 0 }
    }

    /// Wakes every current waiter by moving to the next generation.
    pub fn notify(&mut self)
        ensures
            final(self).generation == next_generation(old(self).generation as nat),
            final(self).generation != old(self).generation,
    {
        self.generation = self.generation.wrapping_add(1);
    }

    /// The generation a prospective waiter captures before blocking.
    pub fn current_generation(&self) -> (g: u64)
        ensures
            g == self.generation,
    {
        self.generation
    }
}

} // verus!
