//! The fixed-timestep accumulator.
//!
//! Wall-clock time advances in arbitrary jumps; the simulation advances in
//! constant-size ticks. The ticker accumulates reported elapsed time and
//! converts it into a deterministic number of whole ticks per rendered
//! frame, carrying the remainder over, so that zero, one, or many physics
//! ticks may run per frame and an arbitrarily large stall is caught up by
//! many fixed-size ticks rather than one oversized tick.

use vstd::arithmetic::div_mod::{lemma_fundamental_div_mod, lemma_mod_division_less_than_divisor};
use vstd::prelude::*;

verus! {

/// Fixed-timestep loop state: the accumulated not-yet-simulated time and the
/// constant duration of one tick, in the caller's time unit.
pub struct Ticker {
    pub accumulator: u64,
    pub frame: u64,
}

impl Ticker {
    /// A ticker is well formed when its tick duration is positive.
    pub open spec fn wf(self) -> bool {
        self.frame > 0
    }

    /// Creates a ticker with an empty accumulator.
    pub fn new(frame: u64) -> (t: Ticker)
        requires
            frame > 0,
        ensures
            t.wf(),
            t.frame == frame,
            t.accumulator == 0,
    {
        Ticker { accumulator: 0, frame }
    }

    /// Accounts one reported elapsed span and returns how many whole ticks
    /// to simulate now: while the accumulated time is at least one tick
    /// duration, one tick is due and that duration is subtracted. The
    /// remainder below one tick duration stays accumulated for the next
    /// frame.
    pub fn advance(&mut self, elapsed: u64) -> (ticks: u64)
        requires
            old(self).wf(),
            old(self).accumulator + elapsed <= u64::MAX,
        ensures
            final(self).wf(),
            final(self).frame == old(self).frame,
            ticks == (old(self).accumulator + elapsed) as int / old(self).frame as int,
            final(self).accumulator == (old(self).accumulator + elapsed) as int % old(
                self,
            ).frame as int,
            final(self).accumulator < final(self).frame,
            old(self).accumulator + elapsed == ticks * old(self).frame + final(self).accumulator,
    {
        let total = self.accumulator + elapsed;
        let ticks = total / self.frame;
        self.accumulator = total % self.frame;
        proof {
            lemma_fundamental_div_mod(total as int, self.frame as int);
            lemma_mod_division_less_than_divisor(total as int, self.frame as int);
        }
        ticks
    }
}

} // verus!
