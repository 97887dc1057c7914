//! The ball: who holds it, the events that move it between actors and the
//! field, and how a ball on the field is launched and slowed down.
use vstd::prelude::*;
use crate::actor::{
    ActorAction, ActorRecord, anim_after_possession, anim_view, after_possession_change, change_ball_possession,
};
use crate::animation::Animation;
use crate::collision::can_pick_up;
use crate::tackle::holder_ok;
use crate::geometry::{Vec2i, div_trunc, div_trunc_i128, lemma_div_trunc_bound, scale_to_length, scaled};
use crate::timer::Countdown;

verus! {

/// Index of an actor in the roster of a match.
pub type ActorId = usize;

/// The single record of which actor, if any, holds the ball.
pub struct BallPossession {
    actor: Option<ActorId>,
}

impl View for BallPossession {
    type V = Option<ActorId>;

    closed spec fn view(&self) -> Option<ActorId> {
        self.actor
    }
}

impl BallPossession {
    /// Nobody holds the ball.
    pub fn new() -> (r: BallPossession)
        ensures
            r@ is None,
    {
        BallPossession { actor: None }
    }

    /// Whether `actor` holds the ball.
    pub fn has_actor_ball(&self, actor: ActorId) -> (r: bool)
        ensures
            r == (self@ == Some(actor)),
    {
        match self.actor {
            Some(a) => a == actor,
            None => false,
        }
    }

    /// The actor holding the ball.
    pub fn get(&self) -> (r: Option<ActorId>)
        ensures
            r == self@,
    {
        self.actor
    }

    /// Whether nobody holds the ball.
    pub fn is_free(&self) -> (r: bool)
        ensures
            r == (self@ is None),
    {
        self.actor.is_none()
    }

    /// `actor` now holds the ball.
    pub fn set(&mut self, actor: ActorId)
        ensures
            final(self)@ == Some(actor),
    {
        self.actor = Some(actor);
    }

    /// Nobody holds the ball any more.
    pub fn clear(&mut self)
        ensures
            final(self)@ is None,
    {
        self.actor = None;
    }
}

/// What happens to the ball, as found by collision and action handling.
#[derive(PartialEq, Eq, Structural, Clone, Copy, Debug)]
pub enum BallEvent {
    /// The actor touched the loose ball and takes it.
    Pickup { actor_entity: ActorId },
    /// The actor loses the ball where it stands, moving at `velocity_vector`.
    Drop { entity: ActorId, position: Vec2i, velocity_vector: Vec2i },
    /// The actor throws the ball from `position` toward `throw_target`, with
    /// `power` in hundredths.
    Throw { entity: ActorId, position: Vec2i, throw_target: Vec2i, power: u32 },
    /// The loose ball hit a wall.
    WallBounce,
}

/// Linear damping of a dropped ball, in thousandths.
pub const BALL_LINEAR_DAMPING_DROPPED: u32 = 1500;

/// Linear damping of a ball that bounced off a wall, in thousandths.
pub const BALL_LINEAR_DAMPING_BOUNCED: u32 = 500;

/// Linear damping of a thrown ball once it has landed, in thousandths.
pub const BALL_LINEAR_DAMPING_LANDED: u32 = 2500;

/// Side of an actor's sprite.
pub const TRUE_SPRITE_SIZE: i32 = 32;

/// Speed of a thrown ball, units per second.
pub const BALL_THROW_SPEED: i32 = 300;

/// Time a thrown ball stays in the air per hundredth of throw power, in
/// milliseconds.
pub const BALL_AIR_TIME_PER_POWER: u32 = 20;

/// Largest throw power, in hundredths, whose air time fits in milliseconds.
pub const MAX_THROW_POWER: u32 = u32::MAX / BALL_AIR_TIME_PER_POWER;

/// A ball to put on the field.
#[derive(PartialEq, Eq, Structural, Clone, Copy, Debug)]
pub struct BallSpawn {
    pub position: Vec2i,
    pub velocity: Vec2i,
    /// Linear damping, in thousandths.
    pub linear_damping: u32,
    /// How long a thrown ball stays in the air, in milliseconds.
    pub air_time: Option<u32>,
}

/// What handling a ball event asks of the physics collaborator.
#[derive(PartialEq, Eq, Structural, Clone, Copy, Debug)]
pub enum BallCommand {
    Spawn(BallSpawn),
    /// Remove the ball from the field: an actor holds it now.
    Despawn,
    /// Set the damping of the ball on the field, in thousandths.
    SetDamping(u32),
}

/// Positions and velocities of the event lie within the world, and a throw's
/// power is at most the largest.
pub open spec fn ball_event_wf(ev: BallEvent) -> bool {
    match ev {
        BallEvent::Drop { position, velocity_vector, .. } => position.in_world()
            && velocity_vector.in_world(),
        BallEvent::Throw { position, power, .. } => position.in_world() && power <= MAX_THROW_POWER,
        _ => true,
    }
}

/// The ball an actor at `position` moving at `velocity` drops: half a sprite
/// ahead along its motion, half again as fast, rolling with damping.
pub open spec fn drop_spawn(position: Vec2i, velocity: Vec2i) -> BallSpawn {
    let ahead = scaled(velocity.x as int, velocity.y as int, (TRUE_SPRITE_SIZE / 2) as int);
    BallSpawn {
        position: Vec2i { x: (position.x + ahead.0) as i32, y: (position.y + ahead.1) as i32 },
        velocity: Vec2i {
            x: div_trunc(velocity.x * 3, 2) as i32,
            y: div_trunc(velocity.y * 3, 2) as i32,
        },
        linear_damping: BALL_LINEAR_DAMPING_DROPPED,
        air_time: None,
    }
}

/// The ball thrown from `position` toward `target`: a sprite ahead, at the
/// throw speed, undamped while in the air for a time proportional to `power`.
pub open spec fn throw_spawn(position: Vec2i, target: Vec2i, power: u32) -> BallSpawn {
    let dx = target.x - position.x;
    let dy = target.y - position.y;
    let ahead = scaled(dx, dy, TRUE_SPRITE_SIZE as int);
    let v = scaled(dx, dy, BALL_THROW_SPEED as int);
    BallSpawn {
        position: Vec2i { x: (position.x + ahead.0) as i32, y: (position.y + ahead.1) as i32 },
        velocity: Vec2i { x: v.0 as i32, y: v.1 as i32 },
        linear_damping: 0,
        air_time: Some((power * BALL_AIR_TIME_PER_POWER) as u32),
    }
}

/// Half of `v` added to it, rounded toward zero.
fn one_and_a_half(v: i32) -> (r: i32)
    requires
        -1_000_000 <= v <= 1_000_000,
    ensures
        r == div_trunc(v * 3, 2),
{
    proof {
        lemma_div_trunc_bound(v * 3, 2);
    }
    div_trunc_i128(v as i128 * 3, 2) as i32
}

/// The ball an actor drops; see `drop_spawn`.
pub fn spawn_dropped_ball(position: Vec2i, velocity: Vec2i) -> (r: BallSpawn)
    requires
        position.in_world(),
        velocity.in_world(),
    ensures
        r == drop_spawn(position, velocity),
{
    let ahead = scale_to_length(velocity.x as i64, velocity.y as i64, (TRUE_SPRITE_SIZE / 2) as i64);
    BallSpawn {
        position: Vec2i { x: (position.x as i64 + ahead.0) as i32, y: (position.y as i64 + ahead.1) as i32 },
        velocity: Vec2i { x: one_and_a_half(velocity.x), y: one_and_a_half(velocity.y) },
        linear_damping: BALL_LINEAR_DAMPING_DROPPED,
        air_time: None,
    }
}

/// The ball an actor throws; see `throw_spawn`.
pub fn spawn_thrown_ball(position: Vec2i, target: Vec2i, power: u32) -> (r: BallSpawn)
    requires
        position.in_world(),
        power <= MAX_THROW_POWER,
    ensures
        r == throw_spawn(position, target, power),
{
    let dx = target.x as i64 - position.x as i64;
    let dy = target.y as i64 - position.y as i64;
    let ahead = scale_to_length(dx, dy, TRUE_SPRITE_SIZE as i64);
    let v = scale_to_length(dx, dy, BALL_THROW_SPEED as i64);
    BallSpawn {
        position: Vec2i { x: (position.x as i64 + ahead.0) as i32, y: (position.y as i64 + ahead.1) as i32 },
        velocity: Vec2i { x: v.0 as i32, y: v.1 as i32 },
        linear_damping: 0,
        air_time: Some(power * BALL_AIR_TIME_PER_POWER),
    }
}

/// Roster, animations, holder and command after one ball event.
pub open spec fn ball_event_step(
    roster: Seq<ActorRecord>,
    anims: Seq<(Seq<usize>, bool, usize, bool)>,
    holder: Option<ActorId>,
    ev: BallEvent,
) -> (Seq<ActorRecord>, Seq<(Seq<usize>, bool, usize, bool)>, Option<ActorId>, Option<BallCommand>) {
    match ev {
        BallEvent::Pickup { actor_entity: a } => if a < roster.len() && can_pick_up(
            roster[a as int].actor.act_action,
        ) {
            let rec = roster[a as int];
            (
                roster.update(
                    a as int,
                    ActorRecord { actor: after_possession_change(rec.actor, true), ..rec },
                ),
                anims.update(a as int, anim_after_possession(anims[a as int], rec.actor.act_action, true)),
                Some(a),
                Some(BallCommand::Despawn),
            )
        } else {
            (roster, anims, holder, None)
        },
        BallEvent::Drop { entity: a, position, velocity_vector } => {
            let spawn = Some(BallCommand::Spawn(drop_spawn(position, velocity_vector)));
            if a < roster.len() {
                let rec = roster[a as int];
                (
                    roster.update(
                        a as int,
                        ActorRecord { actor: after_possession_change(rec.actor, false), ..rec },
                    ),
                    anims.update(a as int, anim_after_possession(anims[a as int], rec.actor.act_action, false)),
                    None,
                    spawn,
                )
            } else {
                (roster, anims, holder, spawn)
            }
        },
        BallEvent::Throw { entity: a, position, throw_target, power } => {
            let spawn = Some(BallCommand::Spawn(throw_spawn(position, throw_target, power)));
            if a < roster.len() {
                let rec = roster[a as int];
                (
                    roster.update(
                        a as int,
                        ActorRecord { actor: after_possession_change(rec.actor, false), ..rec },
                    ),
                    anims.update(a as int, anim_after_possession(anims[a as int], rec.actor.act_action, false)),
                    None,
                    spawn,
                )
            } else {
                (roster, anims, holder, spawn)
            }
        },
        BallEvent::WallBounce => (
            roster,
            anims,
            holder,
            Some(BallCommand::SetDamping(BALL_LINEAR_DAMPING_BOUNCED)),
        ),
    }
}

/// Roster, animations, holder and commands after a list of ball events, in order.
pub open spec fn after_ball_events(
    roster: Seq<ActorRecord>,
    anims: Seq<(Seq<usize>, bool, usize, bool)>,
    holder: Option<ActorId>,
    evs: Seq<BallEvent>,
) -> (Seq<ActorRecord>, Seq<(Seq<usize>, bool, usize, bool)>, Option<ActorId>, Seq<BallCommand>)
    decreases evs.len(),
{
    if evs.len() == 0 {
        (roster, anims, holder, seq![])
    } else {
        let prev = after_ball_events(roster, anims, holder, evs.drop_last());
        let step = ball_event_step(prev.0, prev.1, prev.2, evs.last());
        (
            step.0,
            step.1,
            step.2,
            match step.3 {
                Some(c) => prev.3.push(c),
                None => prev.3,
            },
        )
    }
}

/// The views of a list of animations.
pub open spec fn anim_views(anims: Seq<Animation>) -> Seq<(Seq<usize>, bool, usize, bool)> {
    anims.map_values(|a: Animation| anim_view(a))
}

/// Handles the ball events of this tick in order. A pickup by an actor that
/// may pick up the ball gives it the ball and takes the ball off the field. A
/// drop or a throw releases the ball and puts it on the field (see
/// `drop_spawn` and `throw_spawn`). A bounce damps the ball. The actor gaining
/// or losing the ball changes its animation, and stops looking out for a tackle
/// when it gains the ball.
pub fn handle_ball_events(
    events: &Vec<BallEvent>,
    roster: &mut Vec<ActorRecord>,
    animations: &mut Vec<Animation>,
    possession: &mut BallPossession,
) -> (r: Vec<BallCommand>)
    requires
        old(animations)@.len() == old(roster)@.len(),
        forall|i: int| 0 <= i < old(animations)@.len() ==> (#[trigger] old(animations)@[i]).wf(),
        forall|i: int| 0 <= i < events@.len() ==> ball_event_wf(#[trigger] events@[i]),
    ensures
        (final(roster)@, anim_views(final(animations)@), final(possession)@, r@) == after_ball_events(
            old(roster)@,
            anim_views(old(animations)@),
            old(possession)@,
            events@,
        ),
        final(animations)@.len() == final(roster)@.len(),
        forall|i: int| 0 <= i < final(animations)@.len() ==> (#[trigger] final(animations)@[i]).wf(),
{
    let mut out: Vec<BallCommand> = Vec::new();
    let n = events.len();
    let mut i: usize = 0;
    while i < n
        invariant
            n == events@.len(),
            0 <= i <= n,
            animations@.len() == roster@.len(),
            forall|j: int| 0 <= j < animations@.len() ==> (#[trigger] animations@[j]).wf(),
            forall|j: int| 0 <= j < events@.len() ==> ball_event_wf(#[trigger] events@[j]),
            (roster@, anim_views(animations@), possession@, out@) == after_ball_events(
                old(roster)@,
                anim_views(old(animations)@),
                old(possession)@,
                events@.subrange(0, i as int),
            ),
        decreases n - i,
    {
        let ghost before_anims = animations@;
        assert(ball_event_wf(events@[i as int]));
        match events[i] {
            BallEvent::Pickup { actor_entity } => {
                if actor_entity < roster.len() {
                    let can_pickup = match roster[actor_entity].actor.act_action {
                        ActorAction::Recovering(_)
                        | ActorAction::Throwing { .. }
                        | ActorAction::Tackling { .. } => false,
                        _ => true,
                    };
                    if can_pickup {
                        change_ball_possession(
                            &mut roster[actor_entity].actor,
                            &mut animations[actor_entity],
                            true,
                        );
                        possession.set(actor_entity);
                        out.push(BallCommand::Despawn);
                    }
                }
            },
            BallEvent::Drop { entity, position, velocity_vector } => {
                if entity < roster.len() {
                    change_ball_possession(&mut roster[entity].actor, &mut animations[entity], false);
                    possession.clear();
                }
                out.push(BallCommand::Spawn(spawn_dropped_ball(position, velocity_vector)));
            },
            BallEvent::Throw { entity, position, throw_target, power } => {
                if entity < roster.len() {
                    change_ball_possession(&mut roster[entity].actor, &mut animations[entity], false);
                    possession.clear();
                }
                out.push(BallCommand::Spawn(spawn_thrown_ball(position, throw_target, power)));
            },
            BallEvent::WallBounce => {
                out.push(BallCommand::SetDamping(BALL_LINEAR_DAMPING_BOUNCED));
            },
        }
        proof {
            let sub = events@.subrange(0, i as int + 1);
            assert(sub.drop_last() == events@.subrange(0, i as int));
            assert(anim_views(animations@) =~= ball_event_step(
                after_ball_events(old(roster)@, anim_views(old(animations)@), old(possession)@, events@.subrange(0, i as int)).0,
                anim_views(before_anims),
                after_ball_events(old(roster)@, anim_views(old(animations)@), old(possession)@, events@.subrange(0, i as int)).2,
                events@[i as int],
            ).1);
        }
        i += 1;
    }
    assert(events@.subrange(0, n as int) == events@);
    out
}

/// Lets `delta_ms` pass for a ball in the air. When its air time runs out the
/// ball has landed: the air timer is removed and the result is the damping to
/// give the ball.
pub fn update_thrown_ball(air_timer: &mut Option<Countdown>, delta_ms: u32) -> (r: Option<u32>)
    requires
        *old(air_timer) matches Some(c) ==> c.elapsed_ms <= c.duration_ms,
    ensures
        match *old(air_timer) {
            None => r is None && *final(air_timer) is None,
            Some(c) => {
                let t = c.ticked(delta_ms as int);
                if t.is_finished() {
                    r == Some(BALL_LINEAR_DAMPING_LANDED) && *final(air_timer) is None
                } else {
                    r is None && *final(air_timer) == Some(t)
                }
            },
        },
{
    match *air_timer {
        None => None,
        Some(c) => {
            let mut c = c;
            c.tick(delta_ms);
            if c.finished() {
                *air_timer = None;
                Some(BALL_LINEAR_DAMPING_LANDED)
            } else {
                *air_timer = Some(c);
                None
            }
        },
    }
}

/// Handling ball events never gives the ball to a recovering actor: if no
/// recovering actor held it before, none holds it after.
pub proof fn lemma_ball_events_keep_holder_ok(
    roster: Seq<ActorRecord>,
    anims: Seq<(Seq<usize>, bool, usize, bool)>,
    holder: Option<ActorId>,
    evs: Seq<BallEvent>,
)
    requires
        holder_ok(roster, holder),
    ensures
        holder_ok(
            after_ball_events(roster, anims, holder, evs).0,
            after_ball_events(roster, anims, holder, evs).2,
        ),
    decreases evs.len(),
{
    if evs.len() > 0 {
        lemma_ball_events_keep_holder_ok(roster, anims, holder, evs.drop_last());
        let prev = after_ball_events(roster, anims, holder, evs.drop_last());
        let step = ball_event_step(prev.0, prev.1, prev.2, evs.last());
        assert(step.0.len() == prev.0.len());
        assert(holder_ok(step.0, step.2));
    }
}

} // verus!
