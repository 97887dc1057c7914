//! One-shot countdowns measured in milliseconds.
use vstd::prelude::*;

verus! {

/// A one-shot countdown: it has finished once `elapsed_ms` reaches `duration_ms`.
#[derive(PartialEq, Eq, Structural, Clone, Copy, Debug)]
pub struct Countdown {
    pub duration_ms: u32,
    pub elapsed_ms: u32,
}

impl Countdown {
    /// A countdown of `duration_ms` that has just started.
    pub fn new(duration_ms: u32) -> (r: Countdown)
        ensures
            r.duration_ms == duration_ms,
            r.elapsed_ms == 0,
    {
        Countdown { duration_ms, elapsed_ms: 0 }
    }

    /// The countdown has run out.
    pub open spec fn is_finished(self) -> bool {
        self.elapsed_ms >= self.duration_ms
    }

    /// Whether the countdown has run out.
    pub fn finished(&self) -> (r: bool)
        ensures
            r == self.is_finished(),
    {
        self.elapsed_ms >= self.duration_ms
    }

    /// Restarts the countdown with a new duration.
    pub fn reset(&mut self, duration_ms: u32)
        ensures
            final(self).duration_ms == duration_ms,
            final(self).elapsed_ms == 0,
    {
        self.duration_ms = duration_ms;
        self.elapsed_ms = 0;
    }

    /// The countdown after `delta_ms` more milliseconds; the elapsed time stops
    /// growing once it has reached the duration.
    pub open spec fn ticked(self, delta_ms: int) -> Countdown {
        let e = self.elapsed_ms + delta_ms;
        Countdown {
            duration_ms: self.duration_ms,
            elapsed_ms: if e > self.duration_ms { self.duration_ms } else { e as u32 },
        }
    }

    /// Lets `delta_ms` milliseconds pass.
    pub fn tick(&mut self, delta_ms: u32)
        requires
            old(self).elapsed_ms <= old(self).duration_ms,
        ensures
            *final(self) == old(self).ticked(delta_ms as int),
    {
        let e = self.elapsed_ms as u64 + delta_ms as u64;
        self.elapsed_ms = if e > self.duration_ms as u64 {
            self.duration_ms
        } else {
            e as u32
        };
    }
}

} // verus!
