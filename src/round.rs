//! The round clock that bounds the play phase.
use vstd::prelude::*;
use crate::states::{AppState, PhaseEvent, next_phase, phase_after};
use crate::timer::Countdown;

verus! {

/// Length of the play phase of a round, in milliseconds.
pub const ROUND_TIME: u32 = 2000;

/// The round clock of the play phase, if one runs.
pub struct RoundTimer {
    pub clock: Option<Countdown>,
}

impl RoundTimer {
    /// No clock runs.
    pub fn new() -> (r: RoundTimer)
        ensures
            r.clock is None,
    {
        RoundTimer { clock: None }
    }

    /// A running clock never runs past its duration.
    pub open spec fn wf(self) -> bool {
        self.clock matches Some(c) ==> c.elapsed_ms <= c.duration_ms
    }
}

/// Starts a fresh round clock, replacing any that ran.
pub fn start_timer(timer: &mut RoundTimer)
    ensures
        final(timer).clock == Some(Countdown { duration_ms: ROUND_TIME, elapsed_ms: 0 }),
{
    timer.clock = Some(Countdown::new(ROUND_TIME));
}

/// Lets `delta_ms` pass on the round clock. When it runs out the clock is
/// removed and the match leaves the play phase for planning; the result says
/// whether that happened.
pub fn update_timer(timer: &mut RoundTimer, delta_ms: u32, app_state: &mut AppState) -> (r: bool)
    requires
        old(timer).wf(),
    ensures
        final(timer).wf(),
        match old(timer).clock {
            None => !r && final(timer).clock is None && *final(app_state) == *old(app_state),
            Some(c) => {
                let t = c.ticked(delta_ms as int);
                &&& r == t.is_finished()
                &&& r ==> final(timer).clock is None && *final(app_state) == phase_after(
                    *old(app_state),
                    PhaseEvent::RoundClockExpired,
                )
                &&& !r ==> final(timer).clock == Some(t) && *final(app_state) == *old(app_state)
            },
        },
{
    match timer.clock {
        None => false,
        Some(c) => {
            let mut c = c;
            c.tick(delta_ms);
            if c.finished() {
                timer.clock = None;
                *app_state = next_phase(*app_state, PhaseEvent::RoundClockExpired);
                true
            } else {
                timer.clock = Some(c);
                false
            }
        },
    }
}

} // verus!
