//! Turns contacts between bodies into the events of the game: two actors
//! colliding, an actor picking up the ball, a goal, a bounce off a wall.
use vstd::prelude::*;
use crate::actor::{ActorAction, ActorEvents, ActorRecord};
use crate::ball::{ActorId, BallEvent};
use crate::matchup::{MatchupEvents, after_goal, after_matchup_events, score_plus};
use crate::states::AppState;
use crate::team::opposing;
use crate::team::Team;

verus! {

/// How a contact was reported by the physics collaborator.
#[derive(PartialEq, Eq, Structural, Clone, Copy, Debug)]
pub enum RRCollisionEventTypes {
    Contact,
    Intersection,
}

/// The category of a colliding body.
#[derive(PartialEq, Eq, Structural, Clone, Copy, Debug)]
pub enum ColliderType {
    Actor,
    Ball,
    Wall,
    GoalPost,
}

/// A body that takes part in a contact: an actor of the roster, the ball, a
/// wall, or the goal post of a side.
#[derive(PartialEq, Eq, Structural, Clone, Copy, Debug)]
pub enum Body {
    Actor(ActorId),
    Ball,
    Wall,
    GoalPost(Team),
}

impl Body {
    /// The category of the body.
    pub open spec fn kind(self) -> ColliderType {
        match self {
            Body::Actor(_) => ColliderType::Actor,
            Body::Ball => ColliderType::Ball,
            Body::Wall => ColliderType::Wall,
            Body::GoalPost(_) => ColliderType::GoalPost,
        }
    }

    /// The category of the body.
    pub fn collider_type(&self) -> (r: ColliderType)
        ensures
            r == self.kind(),
    {
        match self {
            Body::Actor(_) => ColliderType::Actor,
            Body::Ball => ColliderType::Ball,
            Body::Wall => ColliderType::Wall,
            Body::GoalPost(_) => ColliderType::GoalPost,
        }
    }
}

/// A contact that started between two bodies.
#[derive(PartialEq, Eq, Structural, Clone, Copy, Debug)]
pub struct RRCollisionEvent {
    pub a: Body,
    pub b: Body,
}

/// The contacts whose two bodies were both identified, in order.
pub open spec fn identified(raw: Seq<(Option<Body>, Option<Body>)>) -> Seq<RRCollisionEvent>
    decreases raw.len(),
{
    if raw.len() == 0 {
        seq![]
    } else {
        let prev = identified(raw.drop_last());
        match raw.last() {
            (Some(a), Some(b)) => prev.push(RRCollisionEvent { a, b }),
            _ => prev,
        }
    }
}

/// Keeps the contacts whose two bodies were identified; a contact with a body
/// that could not be identified is dropped.
pub fn send_rr_collision_event(raw: &Vec<(Option<Body>, Option<Body>)>) -> (r: Vec<RRCollisionEvent>)
    ensures
        r@ == identified(raw@),
{
    let mut out: Vec<RRCollisionEvent> = Vec::new();
    let n = raw.len();
    let mut i: usize = 0;
    while i < n
        invariant
            n == raw@.len(),
            0 <= i <= n,
            out@ == identified(raw@.subrange(0, i as int)),
        decreases n - i,
    {
        proof {
            let sub = raw@.subrange(0, i as int + 1);
            assert(sub.drop_last() == raw@.subrange(0, i as int));
        }
        if let (Some(a), Some(b)) = raw[i] {
            out.push(RRCollisionEvent { a, b });
        }
        i += 1;
    }
    assert(raw@.subrange(0, n as int) == raw@);
    out
}

/// The pair ordered as `(type1, type2)` when its bodies are of those two
/// categories, in either order.
pub open spec fn matched_pair(a: Body, b: Body, type1: ColliderType, type2: ColliderType) -> Option<(Body, Body)> {
    if a.kind() == type1 && b.kind() == type2 {
        Some((a, b))
    } else if b.kind() == type1 && a.kind() == type2 {
        Some((b, a))
    } else {
        None
    }
}

/// Orders the two bodies of a contact as `(type1, type2)`, if they are of
/// those two categories.
pub fn match_entity_pair_to_colliders(a: Body, b: Body, type1: ColliderType, type2: ColliderType) -> (r: Option<(Body, Body)>)
    ensures
        r == matched_pair(a, b, type1, type2),
{
    if a.collider_type() == type1 && b.collider_type() == type2 {
        Some((a, b))
    } else if b.collider_type() == type1 && a.collider_type() == type2 {
        Some((b, a))
    } else {
        None
    }
}

/// An actor in the middle of a throw, a tackle or a recovery cannot pick up
/// the ball.
pub open spec fn can_pick_up(action: ActorAction) -> bool {
    !(action is Recovering || action is Throwing || action is Tackling)
}

/// The events that one contact gives: actor events, ball events, goal events.
/// Contacts naming an actor missing from the roster give nothing.
pub open spec fn contact_events(ev: RRCollisionEvent, roster: Seq<ActorRecord>) -> (
    Seq<ActorEvents>,
    Seq<BallEvent>,
    Seq<MatchupEvents>,
) {
    match (ev.a, ev.b) {
        (Body::Actor(e1), Body::Actor(e2)) => if e1 < roster.len() && e2 < roster.len() {
            let a1 = roster[e1 as int].actor.act_action;
            let a2 = roster[e2 as int].actor.act_action;
            (
                seq![
                    ActorEvents::ActorsCollided {
                        actor_entity: e1,
                        actor_action: a1,
                        other_actor_entity: e2,
                        other_actor_action: a2,
                    },
                    ActorEvents::ActorsCollided {
                        actor_entity: e2,
                        actor_action: a2,
                        other_actor_entity: e1,
                        other_actor_action: a1,
                    },
                ],
                seq![],
                seq![],
            )
        } else {
            (seq![], seq![], seq![])
        },
        (Body::Ball, Body::Actor(e)) | (Body::Actor(e), Body::Ball) => if e < roster.len()
            && can_pick_up(roster[e as int].actor.act_action) {
            (seq![], seq![BallEvent::Pickup { actor_entity: e }], seq![])
        } else {
            (seq![], seq![], seq![])
        },
        (Body::Ball, Body::GoalPost(t)) | (Body::GoalPost(t), Body::Ball) => (
            seq![],
            seq![],
            seq![MatchupEvents::Scored(t, 1)],
        ),
        (Body::Ball, Body::Wall) | (Body::Wall, Body::Ball) => (
            seq![],
            seq![BallEvent::WallBounce],
            seq![],
        ),
        _ => (seq![], seq![], seq![]),
    }
}

/// The events of a list of contacts, each list in the order of the contacts.
pub open spec fn collision_events(evs: Seq<RRCollisionEvent>, roster: Seq<ActorRecord>) -> (
    Seq<ActorEvents>,
    Seq<BallEvent>,
    Seq<MatchupEvents>,
)
    decreases evs.len(),
{
    if evs.len() == 0 {
        (seq![], seq![], seq![])
    } else {
        let prev = collision_events(evs.drop_last(), roster);
        let e = contact_events(evs.last(), roster);
        (prev.0 + e.0, prev.1 + e.1, prev.2 + e.2)
    }
}

/// The events found from the contacts of this tick.
pub struct CollisionOutcome {
    pub actor_events: Vec<ActorEvents>,
    pub ball_events: Vec<BallEvent>,
    pub matchup_events: Vec<MatchupEvents>,
}

/// Resolves the contacts of this tick. Two actors: each gets an event that
/// carries both actions. The ball and an actor: the actor picks it up unless
/// it is throwing, tackling or recovering. The ball and a goal post: a goal
/// against the post's side. The ball and a wall: a bounce.
pub fn handle_collision_events(events: &Vec<RRCollisionEvent>, roster: &Vec<ActorRecord>) -> (r: CollisionOutcome)
    ensures
        (r.actor_events@, r.ball_events@, r.matchup_events@) == collision_events(events@, roster@),
{
    let mut actor_events: Vec<ActorEvents> = Vec::new();
    let mut ball_events: Vec<BallEvent> = Vec::new();
    let mut matchup_events: Vec<MatchupEvents> = Vec::new();
    let n = events.len();
    let mut i: usize = 0;
    while i < n
        invariant
            n == events@.len(),
            0 <= i <= n,
            (actor_events@, ball_events@, matchup_events@) == collision_events(
                events@.subrange(0, i as int),
                roster@,
            ),
        decreases n - i,
    {
        let ghost before = (actor_events@, ball_events@, matchup_events@);
        let ev = events[i];
        match (ev.a, ev.b) {
            (Body::Actor(e1), Body::Actor(e2)) => {
                if e1 < roster.len() && e2 < roster.len() {
                    let a1 = roster[e1].actor.act_action;
                    let a2 = roster[e2].actor.act_action;
                    actor_events.push(
                        ActorEvents::ActorsCollided {
                            actor_entity: e1,
                            actor_action: a1,
                            other_actor_entity: e2,
                            other_actor_action: a2,
                        },
                    );
                    actor_events.push(
                        ActorEvents::ActorsCollided {
                            actor_entity: e2,
                            actor_action: a2,
                            other_actor_entity: e1,
                            other_actor_action: a1,
                        },
                    );
                }
            },
            (Body::Ball, Body::Actor(e)) | (Body::Actor(e), Body::Ball) => {
                if e < roster.len() {
                    let can_pickup_ball = match roster[e].actor.act_action {
                        ActorAction::Recovering(_)
                        | ActorAction::Throwing { .. }
                        | ActorAction::Tackling { .. } => false,
                        _ => true,
                    };
                    if can_pickup_ball {
                        ball_events.push(BallEvent::Pickup { actor_entity: e });
                    }
                }
            },
            (Body::Ball, Body::GoalPost(t)) | (Body::GoalPost(t), Body::Ball) => {
                matchup_events.push(MatchupEvents::Scored(t, 1));
            },
            (Body::Ball, Body::Wall) | (Body::Wall, Body::Ball) => {
                ball_events.push(BallEvent::WallBounce);
            },
            _ => {},
        }
        proof {
            let sub = events@.subrange(0, i as int + 1);
            assert(sub.drop_last() == events@.subrange(0, i as int));
            let e = contact_events(events@[i as int], roster@);
            assert(actor_events@ == before.0 + e.0);
            assert(ball_events@ == before.1 + e.1);
            assert(matchup_events@ == before.2 + e.2);
        }
        i += 1;
    }
    assert(events@.subrange(0, n as int) == events@);
    CollisionOutcome { actor_events, ball_events, matchup_events }
}

/// A contact between the ball and the goal post of `team`, in either order,
/// gives one goal against `team` and nothing else. Handling it during play
/// adds one point to the other side's score (unless that score is already at
/// its largest value), leaves the score of `team` as it was, ends the play
/// phase with a goal, and lets `team` serve next.
pub proof fn lemma_goal_scores_once(
    roster: Seq<ActorRecord>,
    team: Team,
    ball_first: bool,
    score_home: u8,
    score_away: u8,
    serving_side: Team,
)
    ensures
        ({
            let contact = if ball_first {
                RRCollisionEvent { a: Body::Ball, b: Body::GoalPost(team) }
            } else {
                RRCollisionEvent { a: Body::GoalPost(team), b: Body::Ball }
            };
            let evs = collision_events(seq![contact], roster);
            let after = after_matchup_events((score_home, score_away, serving_side, AppState::Play), evs.2);
            &&& evs.0.len() == 0
            &&& evs.1.len() == 0
            &&& evs.2 == seq![MatchupEvents::Scored(team, 1)]
            &&& opposing(team) == Team::Home ==> after.0 == score_plus(score_home, 1) && after.1 == score_away
            &&& opposing(team) == Team::Away ==> after.1 == score_plus(score_away, 1) && after.0 == score_home
            &&& score_home < u8::MAX ==> (opposing(team) == Team::Home ==> after.0 == score_home + 1)
            &&& score_away < u8::MAX ==> (opposing(team) == Team::Away ==> after.1 == score_away + 1)
            &&& after.2 == team
            &&& after.3 == AppState::Scored
        }),
{
    let contact = if ball_first {
        RRCollisionEvent { a: Body::Ball, b: Body::GoalPost(team) }
    } else {
        RRCollisionEvent { a: Body::GoalPost(team), b: Body::Ball }
    };
    let s = seq![contact];
    assert(s.drop_last() =~= Seq::<RRCollisionEvent>::empty());
    let empty = collision_events(s.drop_last(), roster);
    assert(empty == (Seq::<ActorEvents>::empty(), Seq::<BallEvent>::empty(), Seq::<MatchupEvents>::empty()));
    assert(s.last() == contact);
    let e = contact_events(contact, roster);
    assert(e.0 =~= Seq::<ActorEvents>::empty());
    assert(e.1 =~= Seq::<BallEvent>::empty());
    assert(e.2 =~= seq![MatchupEvents::Scored(team, 1)]);
    let evs = collision_events(s, roster);
    assert(evs == (empty.0 + e.0, empty.1 + e.1, empty.2 + e.2));
    assert(evs.2 =~= seq![MatchupEvents::Scored(team, 1)]);
    assert(evs.0 =~= Seq::<ActorEvents>::empty());
    assert(evs.1 =~= Seq::<BallEvent>::empty());
    assert(evs.2.drop_last() =~= Seq::<MatchupEvents>::empty());
    let s0 = (score_home, score_away, serving_side, AppState::Play);
    assert(after_matchup_events(s0, evs.2.drop_last()) == s0);
    assert(evs.2.last() == MatchupEvents::Scored(team, 1));
    assert(after_matchup_events(s0, evs.2) == after_goal(s0, team, 1));
}

} // verus!
