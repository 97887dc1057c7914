//! The match: score, serving side, the roster's start positions, and the
//! handling of goals.
use vstd::prelude::*;
use crate::actor::{Actor, ActorAction, ActorRecord};
use crate::ball::ActorId;
use crate::geometry::Vec2i;
use crate::states::{AppState, PhaseEvent, next_phase, phase_after};
use crate::team::{Team, get_oposing_team, opposing};

verus! {

/// Score, serving side and start positions of a match.
pub struct Matchup {
    pub score_home: u8,
    pub score_away: u8,
    /// Each actor with its start position and side.
    pub actors: Vec<(ActorId, Vec2i, Team)>,
    /// The side that starts the next round with the ball.
    pub serving_side: Team,
    pub ball_home_position: Vec2i,
    pub ball_away_position: Vec2i,
}

/// A goal was scored against the given side, worth the given amount.
#[derive(PartialEq, Eq, Structural, Clone, Copy, Debug)]
pub enum MatchupEvents {
    Scored(Team, u8),
}

/// `score + amount`, held at the largest value a score can take.
pub open spec fn score_plus(score: u8, amount: u8) -> u8 {
    if score + amount > u8::MAX {
        u8::MAX
    } else {
        (score + amount) as u8
    }
}

impl Matchup {
    /// No score, home serves, nobody on the roster yet.
    pub fn new(ball_home_position: Vec2i, ball_away_position: Vec2i) -> (r: Matchup)
        ensures
            r.score_home == 0,
            r.score_away == 0,
            r.actors@.len() == 0,
            r.serving_side == Team::Home,
            r.ball_home_position == ball_home_position,
            r.ball_away_position == ball_away_position,
    {
        Matchup {
            score_away: 0,
            score_home: 0,
            actors: Vec::new(),
            serving_side: Team::Home,
            ball_home_position,
            ball_away_position,
        }
    }

    /// Adds actors, with their start positions and sides, to the roster.
    pub fn add_actors(&mut self, actors: Vec<(ActorId, Vec2i, Team)>)
        ensures
            final(self).actors@ == old(self).actors@ + actors@,
            final(self).score_home == old(self).score_home,
            final(self).score_away == old(self).score_away,
            final(self).serving_side == old(self).serving_side,
            final(self).ball_home_position == old(self).ball_home_position,
            final(self).ball_away_position == old(self).ball_away_position,
    {
        let mut actors = actors;
        self.actors.append(&mut actors);
    }

    /// Adds `amount` to the score of `team`; a score stops at its largest value.
    pub fn add_score(&mut self, team: Team, amount: u8)
        ensures
            team == Team::Home ==> final(self).score_home == score_plus(old(self).score_home, amount)
                && final(self).score_away == old(self).score_away,
            team == Team::Away ==> final(self).score_away == score_plus(old(self).score_away, amount)
                && final(self).score_home == old(self).score_home,
            final(self).actors@ == old(self).actors@,
            final(self).serving_side == old(self).serving_side,
            final(self).ball_home_position == old(self).ball_home_position,
            final(self).ball_away_position == old(self).ball_away_position,
    {
        match team {
            Team::Home => {
                self.score_home = self.score_home.saturating_add(amount);
            },
            Team::Away => {
                self.score_away = self.score_away.saturating_add(amount);
            },
        }
    }

    /// Where the ball is placed at the start of a round: on the serving side.
    pub fn serve_position(&self) -> (r: Vec2i)
        ensures
            r == if self.serving_side == Team::Home {
                self.ball_home_position
            } else {
                self.ball_away_position
            },
    {
        match self.serving_side {
            Team::Home => self.ball_home_position,
            Team::Away => self.ball_away_position,
        }
    }

    /// Score (home, away), serving side and, with it, the phase.
    pub open spec fn state(&self, phase: AppState) -> (u8, u8, Team, AppState) {
        (self.score_home, self.score_away, self.serving_side, phase)
    }
}

/// Score (home, away), serving side and phase after a goal against `against`
/// worth `amount`: the other side scores, play stops, and the side scored
/// against serves next.
pub open spec fn after_goal(s: (u8, u8, Team, AppState), against: Team, amount: u8) -> (u8, u8, Team, AppState) {
    let scorer = opposing(against);
    (
        if scorer == Team::Home { score_plus(s.0, amount) } else { s.0 },
        if scorer == Team::Away { score_plus(s.1, amount) } else { s.1 },
        against,
        phase_after(s.3, PhaseEvent::GoalScored),
    )
}

/// Score, serving side and phase after a list of goal events, in order.
pub open spec fn after_matchup_events(s: (u8, u8, Team, AppState), evs: Seq<MatchupEvents>) -> (u8, u8, Team, AppState)
    decreases evs.len(),
{
    if evs.len() == 0 {
        s
    } else {
        let prev = after_matchup_events(s, evs.drop_last());
        match evs.last() {
            MatchupEvents::Scored(t, amount) => after_goal(prev, t, amount),
        }
    }
}

/// Handles the goals of this tick: each credits the side opposing the one
/// scored against, ends the play phase and makes the side scored against
/// serve next.
pub fn handle_matchup_events(events: &Vec<MatchupEvents>, matchup: &mut Matchup, app_state: &mut AppState)
    ensures
        final(matchup).state(*final(app_state)) == after_matchup_events(
            old(matchup).state(*old(app_state)),
            events@,
        ),
        final(matchup).actors@ == old(matchup).actors@,
        final(matchup).ball_home_position == old(matchup).ball_home_position,
        final(matchup).ball_away_position == old(matchup).ball_away_position,
{
    let n = events.len();
    let mut i: usize = 0;
    while i < n
        invariant
            n == events@.len(),
            0 <= i <= n,
            matchup.state(*app_state) == after_matchup_events(
                old(matchup).state(*old(app_state)),
                events@.subrange(0, i as int),
            ),
            matchup.actors@ == old(matchup).actors@,
            matchup.ball_home_position == old(matchup).ball_home_position,
            matchup.ball_away_position == old(matchup).ball_away_position,
        decreases n - i,
    {
        match events[i] {
            MatchupEvents::Scored(team_scored_against, amount) => {
                matchup.add_score(get_oposing_team(team_scored_against), amount);
                *app_state = next_phase(*app_state, PhaseEvent::GoalScored);
                matchup.serving_side = team_scored_against;
            },
        }
        proof {
            let sub = events@.subrange(0, i as int + 1);
            assert(sub.drop_last() == events@.subrange(0, i as int));
        }
        i += 1;
    }
    assert(events@.subrange(0, n as int) == events@);
}

/// Whether every actor of the match's roster has settled: idle or on the
/// lookout. An actor missing from `roster` counts as not settled.
pub open spec fn all_in_position(actors: Seq<(ActorId, Vec2i, Team)>, roster: Seq<ActorRecord>) -> bool {
    forall|i: int|
        0 <= i < actors.len() ==> {
            let id = (#[trigger] actors[i]).0;
            &&& id < roster.len()
            &&& (roster[id as int].actor.act_action is Idle || roster[id as int].actor.act_action is Lookout)
        }
}

/// Whether every actor of the match has settled at its start position.
pub fn are_actors_in_position(matchup: &Matchup, roster: &Vec<ActorRecord>) -> (r: bool)
    ensures
        r == all_in_position(matchup.actors@, roster@),
{
    let n = matchup.actors.len();
    let mut i: usize = 0;
    while i < n
        invariant
            n == matchup.actors@.len(),
            0 <= i <= n,
            forall|j: int|
                0 <= j < i ==> {
                    let id = (#[trigger] matchup.actors@[j]).0;
                    &&& id < roster@.len()
                    &&& (roster@[id as int].actor.act_action is Idle
                        || roster@[id as int].actor.act_action is Lookout)
                },
        decreases n - i,
    {
        let id = matchup.actors[i].0;
        if id >= roster.len() {
            return false;
        }
        match roster[id].actor.act_action {
            ActorAction::Lookout | ActorAction::Idle => {},
            _ => {
                return false;
            },
        }
        i += 1;
    }
    true
}

/// The roster after sending each listed actor, in order, running toward its
/// start position; entries naming no actor of the roster are skipped.
pub open spec fn sent_to_positions(roster: Seq<ActorRecord>, actors: Seq<(ActorId, Vec2i, Team)>) -> Seq<ActorRecord>
    decreases actors.len(),
{
    if actors.len() == 0 {
        roster
    } else {
        let prev = sent_to_positions(roster, actors.drop_last());
        let (id, p, _) = actors.last();
        if id < prev.len() {
            let rec = prev[id as int];
            prev.update(
                id as int,
                ActorRecord {
                    actor: Actor {
                        act_action: ActorAction::Running { x: p.x, y: p.y },
                        queued_action: None,
                        ..rec.actor
                    },
                    ..rec
                },
            )
        } else {
            prev
        }
    }
}

/// The placements of the listed actors that the roster holds, in order.
pub open spec fn placements(len: nat, actors: Seq<(ActorId, Vec2i, Team)>) -> Seq<(ActorId, Vec2i)>
    decreases actors.len(),
{
    if actors.len() == 0 {
        seq![]
    } else {
        let prev = placements(len, actors.drop_last());
        let (id, p, _) = actors.last();
        if id < len {
            prev.push((id, p))
        } else {
            prev
        }
    }
}

proof fn lemma_sent_len(roster: Seq<ActorRecord>, actors: Seq<(ActorId, Vec2i, Team)>)
    ensures
        sent_to_positions(roster, actors).len() == roster.len(),
    decreases actors.len(),
{
    if actors.len() > 0 {
        lemma_sent_len(roster, actors.drop_last());
    }
}

/// Sends every actor of the match toward its start position: the actor's body
/// is placed there, and it runs to it (which completes at once). Returns the
/// placements for the physics collaborator.
pub fn move_actors_to_positions(matchup: &Matchup, roster: &mut Vec<ActorRecord>) -> (r: Vec<(ActorId, Vec2i)>)
    ensures
        final(roster)@ == sent_to_positions(old(roster)@, matchup.actors@),
        r@ == placements(old(roster)@.len(), matchup.actors@),
{
    let mut out: Vec<(ActorId, Vec2i)> = Vec::new();
    let n = matchup.actors.len();
    let mut i: usize = 0;
    while i < n
        invariant
            n == matchup.actors@.len(),
            0 <= i <= n,
            roster@ == sent_to_positions(old(roster)@, matchup.actors@.subrange(0, i as int)),
            out@ == placements(old(roster)@.len(), matchup.actors@.subrange(0, i as int)),
        decreases n - i,
    {
        proof {
            lemma_sent_len(old(roster)@, matchup.actors@.subrange(0, i as int));
            let sub = matchup.actors@.subrange(0, i as int + 1);
            assert(sub.drop_last() == matchup.actors@.subrange(0, i as int));
        }
        let (id, p, _) = matchup.actors[i];
        if id < roster.len() {
            roster[id].actor.set_action(ActorAction::Running { x: p.x, y: p.y });
            out.push((id, p));
        }
        i += 1;
    }
    assert(matchup.actors@.subrange(0, n as int) == matchup.actors@);
    out
}

} // verus!
