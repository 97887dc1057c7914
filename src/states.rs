//! The phases of a match and the events that move it from one to the next.
use vstd::prelude::*;

verus! {

/// The phases of a match.
#[derive(PartialEq, Eq, Structural, Clone, Copy, Debug, Hash)]
pub enum AppState {
    Plan,
    Play,
    Introduction,
    Scored,
    MovingToStartPosition,
}

/// What can move a match to its next phase.
#[derive(PartialEq, Eq, Structural, Clone, Copy, Debug)]
pub enum PhaseEvent {
    /// The player confirmed (the start key on the introduction or score screen).
    Confirmed,
    /// Every actor has settled at its start position.
    ActorsInPosition,
    /// The player ordered the planned round to be played.
    PlayOrdered,
    /// The round clock ran out.
    RoundClockExpired,
    /// The ball entered a goal.
    GoalScored,
}

/// The phase after `event` in `phase`; an event that means nothing in a phase
/// leaves it unchanged.
pub open spec fn phase_after(phase: AppState, event: PhaseEvent) -> AppState {
    match (phase, event) {
        (AppState::Introduction, PhaseEvent::Confirmed) => AppState::MovingToStartPosition,
        (AppState::Scored, PhaseEvent::Confirmed) => AppState::MovingToStartPosition,
        (AppState::MovingToStartPosition, PhaseEvent::ActorsInPosition) => AppState::Plan,
        (AppState::Plan, PhaseEvent::PlayOrdered) => AppState::Play,
        (AppState::Play, PhaseEvent::RoundClockExpired) => AppState::Plan,
        (AppState::Play, PhaseEvent::GoalScored) => AppState::Scored,
        _ => phase,
    }
}

/// The phase after `event` in `phase`.
pub fn next_phase(phase: AppState, event: PhaseEvent) -> (r: AppState)
    ensures
        r == phase_after(phase, event),
{
    match (phase, event) {
        (AppState::Introduction, PhaseEvent::Confirmed) => AppState::MovingToStartPosition,
        (AppState::Scored, PhaseEvent::Confirmed) => AppState::MovingToStartPosition,
        (AppState::MovingToStartPosition, PhaseEvent::ActorsInPosition) => AppState::Plan,
        (AppState::Plan, PhaseEvent::PlayOrdered) => AppState::Play,
        (AppState::Play, PhaseEvent::RoundClockExpired) => AppState::Plan,
        (AppState::Play, PhaseEvent::GoalScored) => AppState::Scored,
        _ => phase,
    }
}

} // verus!
