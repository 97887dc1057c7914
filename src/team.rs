use vstd::prelude::*;

verus! {

/// The two sides of a match.
#[derive(PartialEq, Eq, Structural, Clone, Copy, Debug)]
pub enum Team {
    Home,
    Away,
}

/// The side that plays against `team`.
pub open spec fn opposing(team: Team) -> Team {
    match team {
        Team::Home => Team::Away,
        Team::Away => Team::Home,
    }
}

/// The side that plays against `team`.
pub fn get_oposing_team(team: Team) -> (r: Team)
    ensures
        r == opposing(team),
        r != team,
{
    match team {
        Team::Away => Team::Home,
        Team::Home => Team::Away,
    }
}

} // verus!
