//! An actor's current and queued action, when an action is complete, and what
//! starting an action asks of the physics and animation collaborators.
use vstd::prelude::*;
use crate::ai::AiControlled;
use crate::animation::Animation;
use crate::ball::{ActorId, BallEvent, BallPossession};
use crate::geometry::{Vec2i, scale_to_length, toward};
use crate::team::Team;
use crate::timer::Countdown;

verus! {

/// Running speed, units per second.
pub const PLAYER_RUN_SPEED: i32 = 100;

/// Tackling speed, units per second.
pub const PLAYER_TACKLE_SPEED: i32 = 225;

/// Distance within which an actor on the lookout goes after a runner.
pub const PLAYER_GUARD_RADIUS: i32 = 60;

/// Farthest point from its origin that a tackle may aim at.
pub const PLAYER_TACKLE_RADIUS: i32 = 120;

/// Recovery after being bumped by a runner, in milliseconds.
pub const PLAYER_RECOVERY_TIME_BUMPED: u32 = 300;

/// Recovery after being tackled, in milliseconds.
pub const PLAYER_RECOVERY_TIME_TACKLED: u32 = 900;

/// Linear damping of a recovering actor, in thousandths.
pub const PLAYER_RECOVERY_LINEAR_DAMPING: u32 = 1500;

/// Power of a throw, in hundredths.
pub const PLAYER_THROWING_POWER: u32 = 50;

/// A run or a tackle is complete once the actor is nearer than this to its
/// target along each axis.
pub const ARRIVAL_TOLERANCE: i32 = 2;

/// Duration the action timer is set back to when an action completes, in
/// milliseconds.
pub const ACTION_TIMER_DEFAULT: u32 = 1000;

/// The discrete intent of an actor.
#[derive(PartialEq, Eq, Structural, Clone, Copy, Debug)]
pub enum ActorAction {
    Idle,
    /// Standing, ready to tackle a passing opponent.
    Lookout,
    Running { x: i32, y: i32 },
    Throwing { x: i32, y: i32 },
    Tackling { x: i32, y: i32 },
    /// Knocked down for the given number of milliseconds.
    Recovering(u32),
}

/// An action that a new order replaces at once instead of waiting for it.
pub open spec fn is_interruptible(a: ActorAction) -> bool {
    a is Idle || a is Lookout
}

/// What an actor does when its action completes with nothing queued.
pub open spec fn default_follow_up(has_tackled: bool, has_ball: bool) -> ActorAction {
    if has_tackled || has_ball {
        ActorAction::Idle
    } else {
        ActorAction::Lookout
    }
}

/// An actor's active action and the one queued after it.
#[derive(PartialEq, Eq, Structural, Clone, Copy, Debug)]
pub struct Actor {
    pub act_action: ActorAction,
    pub queued_action: Option<ActorAction>,
    /// Set when the actor starts a tackle; cleared at the end of a round.
    pub has_tackled: bool,
}

impl Actor {
    /// The actor after its action completed.
    pub open spec fn triggered(self, has_ball: bool) -> Actor {
        Actor {
            act_action: match self.queued_action {
                Some(a) => a,
                None => default_follow_up(self.has_tackled, has_ball),
            },
            queued_action: None,
            has_tackled: self.has_tackled,
        }
    }

    /// The actor after an order for `action`.
    pub open spec fn queued(self, action: ActorAction) -> Actor {
        if is_interruptible(self.act_action) {
            Actor { act_action: action, queued_action: None, ..self }
        } else {
            Actor { queued_action: Some(action), ..self }
        }
    }

    /// On the lookout, nothing queued.
    pub fn new() -> (r: Actor)
        ensures
            r.act_action == ActorAction::Lookout,
            r.queued_action is None,
            !r.has_tackled,
    {
        Actor { act_action: ActorAction::Lookout, queued_action: None, has_tackled: false }
    }

    /// Idle, nothing queued.
    pub fn new_idle() -> (r: Actor)
        ensures
            r.act_action == ActorAction::Idle,
            r.queued_action is None,
            !r.has_tackled,
    {
        Actor { act_action: ActorAction::Idle, queued_action: None, has_tackled: false }
    }

    /// The active action has completed: the queued action becomes active, or
    /// else the actor goes idle if it has tackled or holds the ball, and on the
    /// lookout otherwise. The queue is emptied.
    pub fn trigger_queued_action(&mut self, has_ball: bool)
        ensures
            *final(self) == old(self).triggered(has_ball),
    {
        self.act_action = match self.queued_action {
            Some(a) => a,
            None => if self.has_tackled || has_ball {
                ActorAction::Idle
            } else {
                ActorAction::Lookout
            },
        };
        self.queued_action = None;
    }

    /// Replaces the active action at once and empties the queue.
    pub fn set_action(&mut self, action: ActorAction)
        ensures
            *final(self) == (Actor { act_action: action, queued_action: None, ..*old(self) }),
    {
        self.act_action = action;
        self.queued_action = None;
    }

    /// Starts `action` at once if the actor is idle or on the lookout, and
    /// queues it after the active action otherwise.
    pub fn queue_action(&mut self, action: ActorAction)
        ensures
            *final(self) == old(self).queued(action),
    {
        match self.act_action {
            ActorAction::Idle | ActorAction::Lookout => {
                self.set_action(action);
            },
            _ => {
                self.queued_action = Some(action);
            },
        }
    }
}

/// One actor of a match: its actions, side, flags, action timer, the physics
/// snapshot of this tick, and its decision state if the computer controls it.
#[derive(PartialEq, Eq, Structural, Clone, Copy, Debug)]
pub struct ActorRecord {
    pub actor: Actor,
    pub team: Team,
    /// Some actor on the lookout has already chosen this one as its target.
    pub is_tackle_target: bool,
    pub timer: Countdown,
    pub position: Vec2i,
    pub velocity: Vec2i,
    pub ai: Option<AiControlled>,
}

impl ActorRecord {
    /// A fresh actor of `team` at `position`, on the lookout.
    pub fn new(team: Team, position: Vec2i, ai: Option<AiControlled>) -> (r: ActorRecord)
        ensures
            r.actor == (Actor {
                act_action: ActorAction::Lookout,
                queued_action: None,
                has_tackled: false,
            }),
            r.team == team,
            !r.is_tackle_target,
            r.timer == (Countdown { duration_ms: ACTION_TIMER_DEFAULT, elapsed_ms: 0 }),
            r.position == position,
            r.velocity == (Vec2i { x: 0, y: 0 }),
            r.ai == ai,
    {
        ActorRecord {
            actor: Actor::new(),
            team,
            is_tackle_target: false,
            timer: Countdown::new(ACTION_TIMER_DEFAULT),
            position,
            velocity: Vec2i::zero(),
            ai,
        }
    }

    /// The action timer never runs past its duration, and the physics snapshot
    /// lies within the world.
    pub open spec fn wf(self) -> bool {
        &&& self.timer.elapsed_ms <= self.timer.duration_ms
        &&& self.position.in_world()
        &&& self.velocity.in_world()
    }
}

/// Every actor of a roster is well formed.
pub open spec fn roster_wf(roster: Seq<ActorRecord>) -> bool {
    forall|i: int| 0 <= i < roster.len() ==> (#[trigger] roster[i]).wf()
}

/// Messages about actors, handled after collisions and action completion.
#[derive(PartialEq, Eq, Structural, Clone, Copy, Debug)]
pub enum ActorEvents {
    /// The actor is on the lookout at `position` and may start a tackle.
    LookForTackle { entity: ActorId, team: Team, position: Vec2i },
    /// The actor ran into another one; both actions are those at the moment of
    /// contact.
    ActorsCollided {
        actor_entity: ActorId,
        actor_action: ActorAction,
        other_actor_entity: ActorId,
        other_actor_action: ActorAction,
    },
}

/// Frames of the running animation.
pub open spec fn running_frames(has_ball: bool) -> Seq<usize> {
    if has_ball {
        seq![3, 4, 3, 5]
    } else {
        seq![0, 1, 0, 2]
    }
}

/// Frames of the idle animation.
pub open spec fn idle_frames(has_ball: bool) -> Seq<usize> {
    if has_ball {
        seq![3]
    } else {
        seq![0]
    }
}

/// Frames of the running animation.
pub fn get_running_indexes(ball_possession: bool) -> (r: Vec<usize>)
    ensures
        r@ == running_frames(ball_possession),
{
    if ball_possession {
        vec![3, 4, 3, 5]
    } else {
        vec![0, 1, 0, 2]
    }
}

/// Frames of the idle animation.
pub fn get_idle_indexes(ball_possession: bool) -> (r: Vec<usize>)
    ensures
        r@ == idle_frames(ball_possession),
{
    if ball_possession {
        vec![3]
    } else {
        vec![0]
    }
}

/// What starting an action asks of the collaborators.
pub struct ActionStart {
    /// New velocity of the actor's body, if it changes.
    pub velocity: Option<Vec2i>,
    /// Linear damping of the body, in thousandths.
    pub linear_damping: u32,
    /// Animation frames to play, and whether they loop.
    pub frames: Vec<usize>,
    pub looping: bool,
    /// Whether the sprite faces left, if that changes.
    pub flip_x: Option<bool>,
}

/// The velocity of magnitude about `speed` from `from` toward `(x, y)`.
pub open spec fn velocity_toward(from: Vec2i, x: i32, y: i32, speed: int) -> Vec2i {
    let v = toward(from, Vec2i { x, y }, speed);
    Vec2i { x: v.0 as i32, y: v.1 as i32 }
}

/// The animation frames, and whether they loop, at the start of `action`.
pub open spec fn start_frames(action: ActorAction, has_ball: bool) -> (Seq<usize>, bool) {
    match action {
        ActorAction::Idle | ActorAction::Lookout => (idle_frames(has_ball), true),
        ActorAction::Running { .. } => (running_frames(has_ball), true),
        ActorAction::Tackling { .. } => (seq![10, 11, 12], false),
        ActorAction::Throwing { .. } => (seq![7, 8, 9], false),
        ActorAction::Recovering(_) => (seq![6], true),
    }
}

/// See `velocity_toward`.
fn velocity_to(from: Vec2i, x: i32, y: i32, speed: i32) -> (r: Vec2i)
    requires
        0 <= speed <= 1000,
    ensures
        r == velocity_toward(from, x, y, speed as int),
{
    let v = scale_to_length(x as i64 - from.x as i64, y as i64 - from.y as i64, speed as i64);
    Vec2i { x: v.0 as i32, y: v.1 as i32 }
}

/// The record once its action has started: a tackle marks the actor as having
/// tackled, a recovery restarts the action timer with its duration.
pub open spec fn started_record(rec: ActorRecord) -> ActorRecord {
    match rec.actor.act_action {
        ActorAction::Tackling { .. } => ActorRecord { actor: Actor { has_tackled: true, ..rec.actor }, ..rec },
        ActorAction::Recovering(t) => ActorRecord { timer: Countdown { duration_ms: t, elapsed_ms: 0 }, ..rec },
        _ => rec,
    }
}

/// What starting the record's action asks of its body: the new velocity (if
/// it changes), the linear damping, and whether the sprite faces left (if
/// that changes). Idle, lookout and throwing actors stop; runners and tacklers
/// head for their target at their speed; a recovering actor keeps its motion
/// and is damped.
pub open spec fn start_motion(rec: ActorRecord) -> (Option<Vec2i>, u32, Option<bool>) {
    let p = rec.position;
    match rec.actor.act_action {
        ActorAction::Idle | ActorAction::Lookout => (Some(Vec2i { x: 0, y: 0 }), 0, None),
        ActorAction::Running { x, y } => (
            Some(velocity_toward(p, x, y, PLAYER_RUN_SPEED as int)),
            0,
            Some(x < p.x),
        ),
        ActorAction::Tackling { x, y } => (
            Some(velocity_toward(p, x, y, PLAYER_TACKLE_SPEED as int)),
            0,
            Some(x < p.x),
        ),
        ActorAction::Throwing { x, .. } => (Some(Vec2i { x: 0, y: 0 }), 0, Some(x < p.x)),
        ActorAction::Recovering(_) => (None, PLAYER_RECOVERY_LINEAR_DAMPING, None),
    }
}

/// Applies the start of the actor's active action (see `started_record`) and
/// says what the body and the sprite must do (see `start_motion` and
/// `start_frames`).
pub fn start_action(rec: &mut ActorRecord, has_ball: bool) -> (r: ActionStart)
    ensures
        *final(rec) == started_record(*old(rec)),
        (r.velocity, r.linear_damping, r.flip_x) == start_motion(*old(rec)),
        (r.frames@, r.looping) == start_frames(old(rec).actor.act_action, has_ball),
{
    match rec.actor.act_action {
        ActorAction::Idle | ActorAction::Lookout => ActionStart {
            velocity: Some(Vec2i::zero()),
            linear_damping: 0,
            frames: get_idle_indexes(has_ball),
            looping: true,
            flip_x: None,
        },
        ActorAction::Running { x, y } => ActionStart {
            velocity: Some(velocity_to(rec.position, x, y, PLAYER_RUN_SPEED)),
            linear_damping: 0,
            frames: get_running_indexes(has_ball),
            looping: true,
            flip_x: Some(x < rec.position.x),
        },
        ActorAction::Tackling { x, y } => {
            rec.actor.has_tackled = true;
            ActionStart {
                velocity: Some(velocity_to(rec.position, x, y, PLAYER_TACKLE_SPEED)),
                linear_damping: 0,
                frames: vec![10, 11, 12],
                looping: false,
                flip_x: Some(x < rec.position.x),
            }
        },
        ActorAction::Throwing { x, y } => ActionStart {
            velocity: Some(Vec2i::zero()),
            linear_damping: 0,
            frames: vec![7, 8, 9],
            looping: false,
            flip_x: Some(x < rec.position.x),
        },
        ActorAction::Recovering(t) => {
            rec.timer.reset(t);
            ActionStart {
                velocity: None,
                linear_damping: PLAYER_RECOVERY_LINEAR_DAMPING,
                frames: vec![6],
                looping: true,
                flip_x: None,
            }
        },
    }
}

/// Starts the action of every actor whose action changed since it was last
/// started (`changed[i]`); the start of actor `i` stands at `i`, nothing for
/// an actor whose action did not change.
pub fn handle_actor_action_start(
    roster: &mut Vec<ActorRecord>,
    possession: &BallPossession,
    changed: &Vec<bool>,
) -> (r: Vec<Option<ActionStart>>)
    requires
        changed@.len() == old(roster)@.len(),
    ensures
        final(roster)@.len() == old(roster)@.len(),
        r@.len() == old(roster)@.len(),
        forall|i: int|
            0 <= i < old(roster)@.len() ==> if changed@[i] {
                &&& #[trigger] final(roster)@[i] == started_record(old(roster)@[i])
                &&& r@[i] matches Some(s) && (s.velocity, s.linear_damping, s.flip_x) == start_motion(
                    old(roster)@[i],
                ) && (s.frames@, s.looping) == start_frames(
                    old(roster)@[i].actor.act_action,
                    possession@ == Some(i as ActorId),
                )
            } else {
                final(roster)@[i] == old(roster)@[i] && r@[i] is None
            },
{
    let mut out: Vec<Option<ActionStart>> = Vec::new();
    let n = roster.len();
    let mut i: usize = 0;
    while i < n
        invariant
            n == old(roster)@.len(),
            roster@.len() == n,
            changed@.len() == n,
            0 <= i <= n,
            out@.len() == i,
            forall|j: int|
                0 <= j < i ==> if changed@[j] {
                    &&& #[trigger] roster@[j] == started_record(old(roster)@[j])
                    &&& out@[j] matches Some(s) && (s.velocity, s.linear_damping, s.flip_x) == start_motion(
                        old(roster)@[j],
                    ) && (s.frames@, s.looping) == start_frames(
                        old(roster)@[j].actor.act_action,
                        possession@ == Some(j as ActorId),
                    )
                } else {
                    roster@[j] == old(roster)@[j] && out@[j] is None
                },
            forall|j: int| i <= j < n ==> #[trigger] roster@[j] == old(roster)@[j],
        decreases n - i,
    {
        if changed[i] {
            let has_ball = possession.has_actor_ball(i);
            let s = start_action(&mut roster[i], has_ball);
            out.push(Some(s));
        } else {
            out.push(None);
        }
        i += 1;
    }
    out
}

/// Whether `pos` is nearer than the arrival tolerance to `(x, y)` along each axis.
pub open spec fn has_arrived(pos: Vec2i, x: i32, y: i32) -> bool {
    &&& -ARRIVAL_TOLERANCE < pos.x - x < ARRIVAL_TOLERANCE
    &&& -ARRIVAL_TOLERANCE < pos.y - y < ARRIVAL_TOLERANCE
}

/// Whether `action` is complete for an actor at `pos`, given whether its
/// animation has finished and its action timer (already advanced).
pub open spec fn is_complete(
    action: ActorAction,
    pos: Vec2i,
    animation_finished: bool,
    timer: Countdown,
) -> bool {
    match action {
        ActorAction::Idle | ActorAction::Lookout => false,
        ActorAction::Running { x, y } | ActorAction::Tackling { x, y } => has_arrived(pos, x, y),
        ActorAction::Throwing { .. } => animation_finished,
        ActorAction::Recovering(_) => timer.is_finished(),
    }
}

/// What one refresh of an actor's action produced.
#[derive(PartialEq, Eq, Structural, Clone, Copy, Debug)]
pub struct RefreshOutcome {
    /// The actor is on the lookout and asks for a tackle search.
    pub look_for_tackle: Option<ActorEvents>,
    /// The actor finished a throw while holding the ball.
    pub throw: Option<BallEvent>,
    /// The active action completed and the next one took its place.
    pub completed: bool,
}

/// The actor record and the outcome after one refresh, `delta_ms` after the
/// previous one.
pub open spec fn refreshed(
    rec: ActorRecord,
    entity: ActorId,
    has_ball: bool,
    animation_finished: bool,
    delta_ms: int,
) -> (ActorRecord, RefreshOutcome) {
    let action = rec.actor.act_action;
    let timer = if action is Recovering {
        rec.timer.ticked(delta_ms)
    } else {
        rec.timer
    };
    let completed = is_complete(action, rec.position, animation_finished, timer);
    let look = if action is Lookout {
        Some(ActorEvents::LookForTackle { entity, team: rec.team, position: rec.position })
    } else {
        None
    };
    let throw = match action {
        ActorAction::Throwing { x, y } => if animation_finished && has_ball {
            Some(
                BallEvent::Throw {
                    entity,
                    position: rec.position,
                    throw_target: Vec2i { x, y },
                    power: PLAYER_THROWING_POWER,
                },
            )
        } else {
            None
        },
        _ => None,
    };
    let next = if completed {
        ActorRecord {
            actor: rec.actor.triggered(has_ball),
            timer: Countdown { duration_ms: ACTION_TIMER_DEFAULT, elapsed_ms: 0 },
            ..rec
        }
    } else {
        ActorRecord { timer, ..rec }
    };
    (next, RefreshOutcome { look_for_tackle: look, throw, completed })
}

/// Checks whether the actor's active action is complete and, if so, moves on
/// to the next one. An actor on the lookout asks for a tackle search; a throw
/// whose animation finished releases the ball if the actor holds it.
pub fn refresh_action(
    rec: &mut ActorRecord,
    entity: ActorId,
    has_ball: bool,
    animation_finished: bool,
    delta_ms: u32,
) -> (r: RefreshOutcome)
    requires
        old(rec).wf(),
    ensures
        (*final(rec), r) == refreshed(*old(rec), entity, has_ball, animation_finished, delta_ms as int),
        final(rec).wf(),
{
    let mut look_for_tackle = None;
    let mut throw = None;
    let completed = match rec.actor.act_action {
        ActorAction::Lookout => {
            look_for_tackle = Some(
                ActorEvents::LookForTackle { entity, team: rec.team, position: rec.position },
            );
            false
        },
        ActorAction::Idle => false,
        ActorAction::Running { x, y } | ActorAction::Tackling { x, y } => {
            let d_x = rec.position.x as i64 - x as i64;
            let d_y = rec.position.y as i64 - y as i64;
            -2 < d_x && d_x < 2 && -2 < d_y && d_y < 2
        },
        ActorAction::Throwing { x, y } => {
            if animation_finished && has_ball {
                throw = Some(
                    BallEvent::Throw {
                        entity,
                        position: rec.position,
                        throw_target: Vec2i { x, y },
                        power: PLAYER_THROWING_POWER,
                    },
                );
            }
            animation_finished
        },
        ActorAction::Recovering(_) => {
            rec.timer.tick(delta_ms);
            rec.timer.finished()
        },
    };
    if completed {
        rec.timer.reset(ACTION_TIMER_DEFAULT);
        rec.actor.trigger_queued_action(has_ball);
    }
    RefreshOutcome { look_for_tackle, throw, completed }
}

/// Refreshes every actor of the roster; the outcome of actor `i` stands at `i`.
pub fn handle_actors_refresh_action(
    roster: &mut Vec<ActorRecord>,
    possession: &BallPossession,
    animations_finished: &Vec<bool>,
    delta_ms: u32,
) -> (r: Vec<RefreshOutcome>)
    requires
        roster_wf(old(roster)@),
        animations_finished@.len() == old(roster)@.len(),
    ensures
        final(roster)@.len() == old(roster)@.len(),
        r@.len() == old(roster)@.len(),
        roster_wf(final(roster)@),
        forall|i: int|
            0 <= i < old(roster)@.len() ==> (#[trigger] final(roster)@[i], r@[i]) == refreshed(
                old(roster)@[i],
                i as ActorId,
                possession@ == Some(i as ActorId),
                animations_finished@[i],
                delta_ms as int,
            ),
{
    let mut out: Vec<RefreshOutcome> = Vec::new();
    let n = roster.len();
    let mut i: usize = 0;
    while i < n
        invariant
            n == old(roster)@.len(),
            roster@.len() == n,
            animations_finished@.len() == n,
            0 <= i <= n,
            out@.len() == i,
            forall|j: int| 0 <= j < n ==> (#[trigger] roster@[j]).wf(),
            forall|j: int|
                0 <= j < i ==> (#[trigger] roster@[j], out@[j]) == refreshed(
                    old(roster)@[j],
                    j as ActorId,
                    possession@ == Some(j as ActorId),
                    animations_finished@[j],
                    delta_ms as int,
                ),
            forall|j: int| i <= j < n ==> #[trigger] roster@[j] == old(roster)@[j],
        decreases n - i,
    {
        let has_ball = possession.has_actor_ball(i);
        let outcome = refresh_action(&mut roster[i], i, has_ball, animations_finished[i], delta_ms);
        out.push(outcome);
        i += 1;
    }
    out
}

/// The actor record at the end of a round: a runner stops (idle if it holds
/// the ball, on the lookout otherwise), and the tackle flags are cleared.
pub open spec fn reset_for_round(rec: ActorRecord, has_ball: bool) -> ActorRecord {
    let actor = if rec.actor.act_action is Running {
        Actor {
            act_action: if has_ball {
                ActorAction::Idle
            } else {
                ActorAction::Lookout
            },
            queued_action: None,
            ..rec.actor
        }
    } else {
        rec.actor
    };
    ActorRecord { actor: Actor { has_tackled: false, ..actor }, is_tackle_target: false, ..rec }
}

/// Resets every actor at the end of a round. An actor that was still running
/// stops; any other keeps its action, so one on the lookout may tackle in the
/// next round.
pub fn after_round_reset(roster: &mut Vec<ActorRecord>, possession: &BallPossession)
    ensures
        final(roster)@.len() == old(roster)@.len(),
        forall|i: int|
            0 <= i < old(roster)@.len() ==> #[trigger] final(roster)@[i] == reset_for_round(
                old(roster)@[i],
                possession@ == Some(i as ActorId),
            ),
{
    let n = roster.len();
    let mut i: usize = 0;
    while i < n
        invariant
            n == old(roster)@.len(),
            roster@.len() == n,
            0 <= i <= n,
            forall|j: int|
                0 <= j < i ==> #[trigger] roster@[j] == reset_for_round(
                    old(roster)@[j],
                    possession@ == Some(j as ActorId),
                ),
            forall|j: int| i <= j < n ==> #[trigger] roster@[j] == old(roster)@[j],
        decreases n - i,
    {
        let has_ball = possession.has_actor_ball(i);
        let rec = &mut roster[i];
        if let ActorAction::Running { .. } = rec.actor.act_action {
            rec.actor.set_action(
                if has_ball {
                    ActorAction::Idle
                } else {
                    ActorAction::Lookout
                },
            );
        }
        rec.actor.has_tackled = false;
        rec.is_tackle_target = false;
        i += 1;
    }
}

/// The actor after gaining (`true`) or losing the ball: one on the lookout
/// that gains it goes idle.
pub open spec fn after_possession_change(actor: Actor, ball_possession: bool) -> Actor {
    if actor.act_action is Lookout && ball_possession {
        Actor { act_action: ActorAction::Idle, queued_action: None, ..actor }
    } else {
        actor
    }
}

/// The frames an idle, lookout or running actor shows after gaining or losing
/// the ball; other actions keep theirs.
pub open spec fn possession_frames(action: ActorAction, ball_possession: bool) -> Option<Seq<usize>> {
    match action {
        ActorAction::Idle | ActorAction::Lookout => Some(idle_frames(ball_possession)),
        ActorAction::Running { .. } => Some(running_frames(ball_possession)),
        _ => None,
    }
}

/// What an animation shows: frames, looping, current frame, finished.
pub open spec fn anim_view(a: Animation) -> (Seq<usize>, bool, usize, bool) {
    (a.sprite_indexes@, a.looping, a.act_frame_index, a.finished)
}

/// The animation of an actor whose action is `action` after it gained or lost
/// the ball: idle, lookout and running actors restart their looping frames.
pub open spec fn anim_after_possession(
    v: (Seq<usize>, bool, usize, bool),
    action: ActorAction,
    ball_possession: bool,
) -> (Seq<usize>, bool, usize, bool) {
    match possession_frames(action, ball_possession) {
        Some(f) => (f, true, 0, false),
        None => v,
    }
}

/// Updates the actor and its animation after it gained (`true`) or lost the ball.
pub fn change_ball_possession(actor: &mut Actor, animation: &mut Animation, ball_possession: bool)
    requires
        old(animation).wf(),
    ensures
        *final(actor) == after_possession_change(*old(actor), ball_possession),
        final(animation).wf(),
        anim_view(*final(animation)) == anim_after_possession(
            anim_view(*old(animation)),
            old(actor).act_action,
            ball_possession,
        ),
{
    let indexes = match actor.act_action {
        ActorAction::Idle => Some(get_idle_indexes(ball_possession)),
        ActorAction::Lookout => {
            if ball_possession {
                actor.set_action(ActorAction::Idle);
            }
            Some(get_idle_indexes(ball_possession))
        },
        ActorAction::Running { .. } => Some(get_running_indexes(ball_possession)),
        _ => None,
    };
    if let Some(i) = indexes {
        animation.update_sprites_indexes(i, true);
    }
}

/// An order queued while an actor runs is taken up when the run completes:
/// the refresh that finds the actor arrived makes the order its action and
/// leaves nothing queued. A second completion therefore cannot bring the order
/// back; it gives the default follow-up, which is the order itself only when
/// the order is that default.
pub proof fn lemma_queued_order_follows_run(
    rec: ActorRecord,
    x: i32,
    y: i32,
    order: ActorAction,
    entity: ActorId,
    has_ball: bool,
    animation_finished: bool,
    delta_ms: int,
)
    requires
        rec.actor.act_action == (ActorAction::Running { x, y }),
        has_arrived(rec.position, x, y),
    ensures
        ({
            let queued = ActorRecord { actor: rec.actor.queued(order), ..rec };
            let (after, outcome) = refreshed(queued, entity, has_ball, animation_finished, delta_ms);
            &&& queued.actor.act_action == rec.actor.act_action
            &&& queued.actor.queued_action == Some(order)
            &&& outcome.completed
            &&& after.actor.act_action == order
            &&& after.actor.queued_action is None
            &&& after.actor.triggered(has_ball).act_action == default_follow_up(
                rec.actor.has_tackled,
                has_ball,
            )
            &&& (order == default_follow_up(rec.actor.has_tackled, has_ball) ==> after.actor.triggered(
                has_ball,
            ) == after.actor)
        }),
{
}

} // verus!
