//! Rules of a two-team ball game: actor actions, ball possession, collision
//! resolution, tackle targeting, the computer-controlled players' decisions and
//! the sequence of phases of a match.
//!
//! Positions and velocities are whole world units (units per second for
//! velocities); durations are milliseconds.
pub mod team;
pub mod states;
pub mod geometry;
pub mod timer;
pub mod animation;
pub mod ball;
pub mod ai;
pub mod actor;
pub mod tackle;
pub mod round;
pub mod matchup;
pub mod collision;
pub mod input;
