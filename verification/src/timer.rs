//! Reusable elapsed/duration counter with `finished` and repeat semantics.

use vstd::prelude::*;

verus! {

/// A timer accumulates elapsed time units and reports `finished` once the
/// elapsed time reaches `duration`. A repeating timer that overflows its
/// duration carries the remainder into the next cycle instead of clamping;
/// a non-repeating timer stays finished until `reset` is called.
#[derive(Clone, Copy, PartialEq, Eq, Structural, Debug)]
pub struct Timer {
    pub elapsed: u64,
    pub duration: u64,
    pub finished: bool,
    pub repeating: bool,
}

impl Timer {
    /// A repeating timer must have a positive cycle length (a zero-length
    /// repeating cycle has no meaningful remainder), and a non-repeating
    /// timer only reports `finished` once its elapsed time has really
    /// reached the duration.
    pub open spec fn wf(self) -> bool {
        &&& self.repeating ==> self.duration > 0
        &&& !self.repeating && self.finished ==> self.elapsed >= self.duration
    }

    /// Elapsed time after adding `delta`, saturating at the top of the range.
    pub open spec fn spec_accumulated(self, delta: u64) -> int {
        if self.elapsed + delta <= u64::MAX {
            self.elapsed + delta
        } else {
            u64::MAX as int
        }
    }

    /// The timer state after one `tick(delta)` call.
    pub open spec fn spec_ticked(self, delta: u64) -> Timer {
        let total = self.spec_accumulated(delta);
        let done = total >= self.duration;
        let carried = if self.repeating && done && self.duration > 0 {
            total % (self.duration as int)
        } else {
            total
        };
        Timer {
            elapsed: carried as u64,
            duration: self.duration,
            finished: done,
            repeating: self.repeating,
        }
    }

    pub fn new(duration: u64, repeating: bool) -> (r: Timer)
        requires
            repeating ==> duration > 0,
        ensures
            r == (Timer { elapsed: 0u64, duration, finished: false, repeating }),
            r.wf(),
    {
        Timer { elapsed: 0, duration, finished: false, repeating }
    }

    /// Add `delta` to the elapsed time and recompute `finished`. A repeating
    /// timer that finishes keeps only the remainder of the cycle and stays
    /// armed; a non-repeating one accumulates on, so `finished` then holds
    /// until `reset`.
    pub fn tick(&mut self, delta: u64)
        ensures
            *final(self) == old(self).spec_ticked(delta),
            old(self).wf() ==> final(self).wf(),
            old(self).wf() && old(self).finished && !old(self).repeating ==> final(self).finished,
    {
        if delta <= u64::MAX - self.elapsed {
            self.elapsed = self.elapsed + delta;
        } else {
            self.elapsed = u64::MAX;
        }
        self.finished = self.elapsed >= self.duration;
        if self.repeating && self.finished && self.duration > 0 {
            self.elapsed = self.elapsed % self.duration;
        }
    }

    /// Disarm: back to the start of a cycle.
    pub fn reset(&mut self)
        ensures
            *final(self) == (Timer {
                elapsed: 0u64,
                duration: old(self).duration,
                finished: false,
                repeating: old(self).repeating,
            }),
            old(self).wf() ==> final(self).wf(),
    {
        self.elapsed = 0;
        self.finished = false;
    }
}

} // verus!
