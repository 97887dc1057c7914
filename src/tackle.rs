//! Tackles: finding where a tackle can meet a runner, choosing the runner, and
//! what a collision between two actors does to both and to the ball.
use vstd::prelude::*;
use crate::actor::{
    Actor, ActorAction, ActorEvents, ActorRecord, PLAYER_GUARD_RADIUS, PLAYER_RECOVERY_TIME_BUMPED,
    PLAYER_RECOVERY_TIME_TACKLED, PLAYER_TACKLE_RADIUS, PLAYER_TACKLE_SPEED, roster_wf,
};
use crate::ball::{ActorId, BallEvent, BallPossession};
use crate::geometry::{WORLD_LIMIT, Vec2i, dist_sq, distance_squared, div_trunc, div_trunc_i128, lemma_div_trunc_bound, lemma_square_le};
use crate::team::Team;

verus! {

/// The search looks at the target every fifth of a second.
pub const TACKLE_STEPS_PER_SECOND: i32 = 5;

/// The search gives up after this many steps (a hundred seconds).
pub const TACKLE_MAX_STEPS: i32 = 500;

/// Five times the displacement from `o` to where a target at `tp` moving at
/// `tv` stands after `k` steps: `5 (tp - o) + tv k`.
pub open spec fn reach(tp: Vec2i, tv: Vec2i, o: Vec2i, k: int) -> (int, int) {
    (
        TACKLE_STEPS_PER_SECOND * (tp.x - o.x) + tv.x * k,
        TACKLE_STEPS_PER_SECOND * (tp.y - o.y) + tv.y * k,
    )
}

/// The square of the length of `reach`.
pub open spec fn reach_sq(tp: Vec2i, tv: Vec2i, o: Vec2i, k: int) -> int {
    let r = reach(tp, tv, o, k);
    r.0 * r.0 + r.1 * r.1
}

/// A tackle from `o` meets the target after `k` steps: the velocity it needs,
/// `reach / k` units per second, is slower than the tackle speed, and the
/// meeting point `o + reach / 5` lies within the tackle radius.
pub open spec fn meets_at(tp: Vec2i, tv: Vec2i, o: Vec2i, k: int) -> bool {
    let m = reach_sq(tp, tv, o, k);
    &&& m < PLAYER_TACKLE_SPEED * PLAYER_TACKLE_SPEED * (k * k)
    &&& m < TACKLE_STEPS_PER_SECOND * TACKLE_STEPS_PER_SECOND * (PLAYER_TACKLE_RADIUS
        * PLAYER_TACKLE_RADIUS)
}

/// Meeting the target at step `k` needs a faster tackle than at step `k - 1`:
/// the target is getting away.
pub open spec fn pulls_away(tp: Vec2i, tv: Vec2i, o: Vec2i, k: int) -> bool {
    &&& k >= 2
    &&& reach_sq(tp, tv, o, k) * ((k - 1) * (k - 1)) > reach_sq(tp, tv, o, k - 1) * (k * k)
}

/// Where the tackle meets the target after `k` steps, rounded toward `o`.
pub open spec fn meeting_point(tp: Vec2i, tv: Vec2i, o: Vec2i, k: int) -> Vec2i {
    let r = reach(tp, tv, o, k);
    Vec2i {
        x: (o.x + div_trunc(r.0, TACKLE_STEPS_PER_SECOND as int)) as i32,
        y: (o.y + div_trunc(r.1, TACKLE_STEPS_PER_SECOND as int)) as i32,
    }
}

/// The search from step `k` on: the first step at which the tackle meets the
/// target gives the meeting point; it fails at the first step at which the
/// target pulls away, or at the last step.
pub open spec fn tackle_search(tp: Vec2i, tv: Vec2i, o: Vec2i, k: int) -> Option<Vec2i>
    decreases TACKLE_MAX_STEPS - k,
{
    if meets_at(tp, tv, o, k) {
        Some(meeting_point(tp, tv, o, k))
    } else if pulls_away(tp, tv, o, k) || k >= TACKLE_MAX_STEPS {
        None
    } else {
        tackle_search(tp, tv, o, k + 1)
    }
}

proof fn lemma_meeting_point_bounds(tp: Vec2i, tv: Vec2i, o: Vec2i, k: int)
    requires
        meets_at(tp, tv, o, k),
        o.in_world(),
    ensures
        ({
            let h = meeting_point(tp, tv, o, k);
            &&& dist_sq(h, o) < PLAYER_TACKLE_RADIUS * PLAYER_TACKLE_RADIUS
            &&& 25 * dist_sq(h, o) < PLAYER_TACKLE_SPEED * PLAYER_TACKLE_SPEED * (k * k)
        }),
{
    let r = reach(tp, tv, o, k);
    let qx = div_trunc(r.0, 5);
    let qy = div_trunc(r.1, 5);
    lemma_div_trunc_bound(r.0, 5);
    lemma_div_trunc_bound(r.1, 5);
    assert(qx * qx * 25 <= r.0 * r.0);
    assert(qy * qy * 25 <= r.1 * r.1);
    assert(-120 <= qx <= 120) by (nonlinear_arith)
        requires
            qx * qx * 25 <= r.0 * r.0,
            qy * qy * 25 <= r.1 * r.1,
            r.0 * r.0 + r.1 * r.1 < 25 * 14400,
    ;
    assert(-120 <= qy <= 120) by (nonlinear_arith)
        requires
            qx * qx * 25 <= r.0 * r.0,
            qy * qy * 25 <= r.1 * r.1,
            r.0 * r.0 + r.1 * r.1 < 25 * 14400,
    ;
    let h = meeting_point(tp, tv, o, k);
    assert(h.x - o.x == qx);
    assert(h.y - o.y == qy);
    assert(dist_sq(h, o) == qx * qx + qy * qy);
}

/// Covering a squared distance `d_sq` in `j` fifths of a second is slower
/// than the tackle speed.
pub open spec fn slow_enough(d_sq: int, j: int) -> bool {
    TACKLE_STEPS_PER_SECOND * TACKLE_STEPS_PER_SECOND * d_sq < PLAYER_TACKLE_SPEED
        * PLAYER_TACKLE_SPEED * (j * j)
}

/// A tackle aimed where the search says reaches that point within the tackle
/// radius, and at a speed below the tackle speed: for some step `k`, covering
/// the distance in `k` fifths of a second is slower than the tackle speed.
pub proof fn lemma_tackle_hit_within_reach(tp: Vec2i, tv: Vec2i, o: Vec2i, k: int)
    requires
        o.in_world(),
        1 <= k <= TACKLE_MAX_STEPS,
    ensures
        tackle_search(tp, tv, o, k) matches Some(h) ==> {
            &&& dist_sq(h, o) < PLAYER_TACKLE_RADIUS * PLAYER_TACKLE_RADIUS
            &&& exists|j: int|
                k <= j <= TACKLE_MAX_STEPS && #[trigger] slow_enough(dist_sq(h, o), j)
        },
    decreases TACKLE_MAX_STEPS - k,
{
    if meets_at(tp, tv, o, k) {
        lemma_meeting_point_bounds(tp, tv, o, k);
        assert(slow_enough(dist_sq(meeting_point(tp, tv, o, k), o), k));
    } else if pulls_away(tp, tv, o, k) || k >= TACKLE_MAX_STEPS {
    } else {
        lemma_tackle_hit_within_reach(tp, tv, o, k + 1);
    }
}

/// Searches the steps `k = 1, 2, ...` (fifths of a second) for the first at
/// which a tackle from `origin_position` at constant velocity can meet a target
/// at `target_position` moving at `target_velocity`, and returns the meeting
/// point. Gives up once the target pulls away or after the last step.
pub fn get_tackle_hit_position(target_position: Vec2i, target_velocity: Vec2i, origin_position: Vec2i) -> (r: Option<Vec2i>)
    requires
        target_position.in_world(),
        target_velocity.in_world(),
        origin_position.in_world(),
    ensures
        r == tackle_search(target_position, target_velocity, origin_position, 1),
        r matches Some(h) ==> {
            &&& dist_sq(h, origin_position) < PLAYER_TACKLE_RADIUS * PLAYER_TACKLE_RADIUS
            &&& exists|j: int|
                1 <= j <= TACKLE_MAX_STEPS && #[trigger] slow_enough(dist_sq(h, origin_position), j)
        },
{
    let tp = target_position;
    let tv = target_velocity;
    let o = origin_position;
    proof {
        lemma_tackle_hit_within_reach(tp, tv, o, 1);
    }
    let bx = 5 * (tp.x as i128 - o.x as i128);
    let by = 5 * (tp.y as i128 - o.y as i128);
    let speed_sq: i128 = PLAYER_TACKLE_SPEED as i128 * PLAYER_TACKLE_SPEED as i128;
    let radius_sq_25: i128 = 25 * (PLAYER_TACKLE_RADIUS as i128 * PLAYER_TACKLE_RADIUS as i128);
    let mut last: i128 = 0;
    let mut k: i128 = 1;
    loop
        invariant
            1 <= k <= TACKLE_MAX_STEPS,
            tp == target_position,
            tv == target_velocity,
            o == origin_position,
            tp.in_world(),
            tv.in_world(),
            o.in_world(),
            bx == 5 * (tp.x - o.x),
            by == 5 * (tp.y - o.y),
            speed_sq == 225 * 225,
            radius_sq_25 == 25 * (120 * 120),
            k >= 2 ==> last == reach_sq(tp, tv, o, k - 1),
            0 <= last <= 600_000_000_000_000_000,
            tackle_search(tp, tv, o, 1) == tackle_search(tp, tv, o, k as int),
        decreases TACKLE_MAX_STEPS - k,
    {
        proof {
            assert(-500_000_000 <= tv.x * k <= 500_000_000) by (nonlinear_arith)
                requires
                    -1_000_000 <= tv.x <= 1_000_000,
                    1 <= k <= 500,
            ;
            assert(-500_000_000 <= tv.y * k <= 500_000_000) by (nonlinear_arith)
                requires
                    -1_000_000 <= tv.y <= 1_000_000,
                    1 <= k <= 500,
            ;
        }
        let nx = bx + tv.x as i128 * k;
        let ny = by + tv.y as i128 * k;
        proof {
            lemma_square_le(nx as int, 520_000_000);
            lemma_square_le(ny as int, 520_000_000);
            assert(0 <= k * k <= 250_000) by (nonlinear_arith)
                requires
                    1 <= k <= 500,
            ;
        }
        let mag = nx * nx + ny * ny;
        assert(mag == reach_sq(tp, tv, o, k as int));
        let kk = k * k;
        proof {
            assert(speed_sq * kk <= 50625 * 250_000) by (nonlinear_arith)
                requires
                    speed_sq == 50625,
                    0 <= kk <= 250_000,
            ;
        }
        if mag < speed_sq * kk && mag < radius_sq_25 {
            proof {
                lemma_div_trunc_bound(nx as int, 5);
                lemma_div_trunc_bound(ny as int, 5);
            }
            let qx = div_trunc_i128(nx, 5);
            let qy = div_trunc_i128(ny, 5);
            proof {
                assert(-120 <= qx <= 120) by (nonlinear_arith)
                    requires
                        qx * qx * 25 <= nx * nx,
                        qy * qy * 25 <= ny * ny,
                        nx * nx + ny * ny < 25 * 14400,
                ;
                assert(-120 <= qy <= 120) by (nonlinear_arith)
                    requires
                        qx * qx * 25 <= nx * nx,
                        qy * qy * 25 <= ny * ny,
                        nx * nx + ny * ny < 25 * 14400,
                ;
            }
            let h = Vec2i { x: (o.x as i128 + qx) as i32, y: (o.y as i128 + qy) as i32 };
            proof {
                assert(tackle_search(tp, tv, o, 1) == Some(h));
                lemma_tackle_hit_within_reach(tp, tv, o, 1);
                let j = choose|j: int| 1 <= j <= TACKLE_MAX_STEPS && #[trigger] slow_enough(dist_sq(h, o), j);
                assert(slow_enough(dist_sq(h, origin_position), j));
            }
            return Some(h);
        }
        let km1 = k - 1;
        proof {
            assert(0 <= km1 * km1 <= 250_000) by (nonlinear_arith)
                requires
                    0 <= km1 <= 499,
            ;
            assert(0 <= mag * (km1 * km1) <= 600_000_000_000_000_000 * 250_000) by (nonlinear_arith)
                requires
                    0 <= mag <= 600_000_000_000_000_000,
                    0 <= km1 * km1 <= 250_000,
            ;
            assert(0 <= last * kk <= 600_000_000_000_000_000 * 250_000) by (nonlinear_arith)
                requires
                    0 <= last <= 600_000_000_000_000_000,
                    0 <= kk <= 250_000,
            ;
        }
        if (k >= 2 && mag * (km1 * km1) > last * kk) || k >= TACKLE_MAX_STEPS as i128 {
            return None;
        }
        last = mag;
        k = k + 1;
    }
}

/// An opponent of `team` that an actor on the lookout at `position` may go
/// after: within the guard radius, running, and not yet chosen by another.
pub open spec fn tacklable(t: ActorRecord, team: Team, position: Vec2i) -> bool {
    &&& t.team != team
    &&& dist_sq(t.position, position) <= PLAYER_GUARD_RADIUS * PLAYER_GUARD_RADIUS
    &&& t.actor.act_action is Running
    &&& !t.is_tackle_target
}

/// The first actor from index `i` on that is tacklable and that a tackle can
/// meet, with the meeting point.
pub open spec fn tackle_scan(roster: Seq<ActorRecord>, team: Team, position: Vec2i, i: int) -> Option<(int, Vec2i)>
    decreases roster.len() - i,
{
    if i < 0 || i >= roster.len() {
        None
    } else if tacklable(roster[i], team, position) && tackle_search(
        roster[i].position,
        roster[i].velocity,
        position,
        1,
    ) is Some {
        Some((i, tackle_search(roster[i].position, roster[i].velocity, position, 1).unwrap()))
    } else {
        tackle_scan(roster, team, position, i + 1)
    }
}

/// The recovery, in milliseconds, of an actor whose action was `actor_action`
/// when it ran into one whose action was `other_actor_action`: a tackle knocks
/// down, a runner bumps anyone but a tackler, anything else costs nothing.
pub open spec fn recovery_time(actor_action: ActorAction, other_actor_action: ActorAction) -> u32 {
    match other_actor_action {
        ActorAction::Tackling { .. } => PLAYER_RECOVERY_TIME_TACKLED,
        ActorAction::Running { .. } => if actor_action is Tackling {
            0
        } else {
            PLAYER_RECOVERY_TIME_BUMPED
        },
        _ => 0,
    }
}

/// The roster, the ball holder and the ball event after one actor event.
pub open spec fn actor_event_step(
    roster: Seq<ActorRecord>,
    holder: Option<ActorId>,
    ev: ActorEvents,
) -> (Seq<ActorRecord>, Option<ActorId>, Option<BallEvent>) {
    match ev {
        ActorEvents::ActorsCollided {
            actor_entity: a,
            actor_action,
            other_actor_entity: o,
            other_actor_action,
        } => if a >= roster.len() {
            (roster, holder, None)
        } else {
            let rt = recovery_time(actor_action, other_actor_action);
            let action = if rt > 0 {
                ActorAction::Recovering(rt)
            } else {
                ActorAction::Idle
            };
            let rec = roster[a as int];
            let hit = ActorRecord {
                actor: Actor { act_action: action, queued_action: None, ..rec.actor },
                ..rec
            };
            let roster2 = roster.update(a as int, hit);
            if holder == Some(a) {
                if other_actor_action is Tackling && o < roster2.len()
                    && !(roster2[o as int].actor.act_action is Recovering) {
                    (roster2, Some(o), None)
                } else {
                    (
                        roster2,
                        None,
                        Some(
                            BallEvent::Drop {
                                entity: a,
                                position: rec.position,
                                velocity_vector: rec.velocity,
                            },
                        ),
                    )
                }
            } else {
                (roster2, holder, None)
            }
        },
        ActorEvents::LookForTackle { entity: e, team, position } => if e >= roster.len()
            || !position.in_world() || !(roster[e as int].actor.act_action is Lookout) {
            (roster, holder, None)
        } else {
            match tackle_scan(roster, team, position, 0) {
                None => (roster, holder, None),
                Some((t, hp)) => {
                    let marked = roster.update(t, ActorRecord { is_tackle_target: true, ..roster[t] });
                    let se = marked[e as int];
                    let tackler = ActorRecord {
                        actor: Actor {
                            act_action: ActorAction::Tackling { x: hp.x, y: hp.y },
                            queued_action: Some(ActorAction::Idle),
                            ..se.actor
                        },
                        ..se
                    };
                    (marked.update(e as int, tackler), holder, None)
                },
            }
        },
    }
}

/// The roster, the ball holder and the ball events after a list of actor
/// events, handled in order.
pub open spec fn after_actor_events(
    roster: Seq<ActorRecord>,
    holder: Option<ActorId>,
    evs: Seq<ActorEvents>,
) -> (Seq<ActorRecord>, Option<ActorId>, Seq<BallEvent>)
    decreases evs.len(),
{
    if evs.len() == 0 {
        (roster, holder, seq![])
    } else {
        let prev = after_actor_events(roster, holder, evs.drop_last());
        let step = actor_event_step(prev.0, prev.1, evs.last());
        (
            step.0,
            step.1,
            match step.2 {
                Some(b) => prev.2.push(b),
                None => prev.2,
            },
        )
    }
}

/// The first opponent that an actor of `team` on the lookout at `position` can
/// tackle, with the meeting point.
fn find_tackle_target(roster: &Vec<ActorRecord>, team: Team, position: Vec2i) -> (r: Option<(usize, Vec2i)>)
    requires
        roster_wf(roster@),
        position.in_world(),
    ensures
        match r {
            Some((t, h)) => tackle_scan(roster@, team, position, 0) == Some((t as int, h)),
            None => tackle_scan(roster@, team, position, 0) is None,
        },
{
    let n = roster.len();
    let mut i: usize = 0;
    while i < n
        invariant
            n == roster@.len(),
            0 <= i <= n,
            roster_wf(roster@),
            position.in_world(),
            tackle_scan(roster@, team, position, 0) == tackle_scan(roster@, team, position, i as int),
        decreases n - i,
    {
        let t = &roster[i];
        assert(t.wf());
        let g: i64 = PLAYER_GUARD_RADIUS as i64;
        assert(g == 60);
        let guard_sq: i64 = g * g;
        if t.team != team && distance_squared(t.position, position) <= guard_sq && matches!(
        t.actor.act_action,
        ActorAction::Running { .. }
        ) && !t.is_tackle_target {
            let hit = get_tackle_hit_position(t.position, t.velocity, position);
            if let Some(h) = hit {
                return Some((i, h));
            }
        }
        i += 1;
    }
    None
}

proof fn lemma_step_keeps_wf(roster: Seq<ActorRecord>, holder: Option<ActorId>, ev: ActorEvents)
    requires
        roster_wf(roster),
    ensures
        roster_wf(actor_event_step(roster, holder, ev).0),
        actor_event_step(roster, holder, ev).0.len() == roster.len(),
{
    match ev {
        ActorEvents::LookForTackle { entity: e, team, position } => {
            if e < roster.len() && position.in_world() && roster[e as int].actor.act_action is Lookout {
                lemma_scan_in_range(roster, team, position, 0);
            }
        },
        _ => {},
    }
}

proof fn lemma_scan_in_range(roster: Seq<ActorRecord>, team: Team, position: Vec2i, i: int)
    ensures
        tackle_scan(roster, team, position, i) matches Some((t, _)) ==> 0 <= t < roster.len(),
    decreases roster.len() - i,
{
    if 0 <= i < roster.len() {
        lemma_scan_in_range(roster, team, position, i + 1);
    }
}

/// Handles the actor events of this tick in order.
///
/// A collision puts the hit actor into recovery (or idle, when the collision
/// cost it nothing) and empties its queue; if it held the ball, a tackler takes
/// it over, and otherwise the ball is released at once and dropped where the
/// actor stood, at its velocity before the hit (also when the tackler is
/// itself recovering, so that a recovering actor never holds the ball). A tackle search by an actor
/// still on the lookout claims the first opponent it can meet and starts a
/// tackle toward the meeting point, idle afterwards. Events naming no actor of
/// the roster are dropped.
pub fn handle_actor_events(
    events: &Vec<ActorEvents>,
    roster: &mut Vec<ActorRecord>,
    possession: &mut BallPossession,
) -> (r: Vec<BallEvent>)
    requires
        roster_wf(old(roster)@),
    ensures
        (final(roster)@, final(possession)@, r@) == after_actor_events(
            old(roster)@,
            old(possession)@,
            events@,
        ),
        roster_wf(final(roster)@),
{
    let mut out: Vec<BallEvent> = Vec::new();
    let n = events.len();
    let mut i: usize = 0;
    while i < n
        invariant
            n == events@.len(),
            0 <= i <= n,
            roster_wf(roster@),
            (roster@, possession@, out@) == after_actor_events(
                old(roster)@,
                old(possession)@,
                events@.subrange(0, i as int),
            ),
        decreases n - i,
    {
        let ghost before = (roster@, possession@, out@);
        proof {
            lemma_step_keeps_wf(roster@, possession@, events@[i as int]);
        }
        match events[i] {
            ActorEvents::ActorsCollided {
                actor_entity,
                actor_action,
                other_actor_entity,
                other_actor_action,
            } => {
                if actor_entity < roster.len() {
                    let recovery = match other_actor_action {
                        ActorAction::Tackling { .. } => PLAYER_RECOVERY_TIME_TACKLED,
                        ActorAction::Running { .. } => match actor_action {
                            ActorAction::Tackling { .. } => 0,
                            _ => PLAYER_RECOVERY_TIME_BUMPED,
                        },
                        _ => 0,
                    };
                    let action = if recovery > 0 {
                        ActorAction::Recovering(recovery)
                    } else {
                        ActorAction::Idle
                    };
                    let position = roster[actor_entity].position;
                    let velocity = roster[actor_entity].velocity;
                    roster[actor_entity].actor.set_action(action);
                    if possession.has_actor_ball(actor_entity) {
                        let takes_over = matches!(other_actor_action, ActorAction::Tackling { .. })
                            && other_actor_entity < roster.len() && !matches!(
                            roster[other_actor_entity].actor.act_action,
                            ActorAction::Recovering(_)
                        );
                        if takes_over {
                            possession.set(other_actor_entity);
                        } else {
                            possession.clear();
                            out.push(
                                BallEvent::Drop {
                                    entity: actor_entity,
                                    position,
                                    velocity_vector: velocity,
                                },
                            );
                        }
                    }
                }
            },
            ActorEvents::LookForTackle { entity, team, position } => {
                if entity < roster.len() && -WORLD_LIMIT <= position.x && position.x <= WORLD_LIMIT
                    && -WORLD_LIMIT <= position.y && position.y <= WORLD_LIMIT && matches!(
                roster[entity].actor.act_action,
                ActorAction::Lookout
                ) {
                    if let Some((t, hp)) = find_tackle_target(roster, team, position) {
                        proof {
                            lemma_scan_in_range(roster@, team, position, 0);
                        }
                        roster[t].is_tackle_target = true;
                        roster[entity].actor.set_action(ActorAction::Tackling { x: hp.x, y: hp.y });
                        roster[entity].actor.queue_action(ActorAction::Idle);
                    }
                }
            },
        }
        proof {
            let sub = events@.subrange(0, i as int + 1);
            assert(sub.drop_last() == events@.subrange(0, i as int));
            assert(sub.last() == events@[i as int]);
        }
        i += 1;
    }
    assert(events@.subrange(0, n as int) == events@);
    out
}

/// The ball holder, if any, is an actor of the roster that is not recovering.
pub open spec fn holder_ok(roster: Seq<ActorRecord>, holder: Option<ActorId>) -> bool {
    holder matches Some(h) ==> h < roster.len() && !(roster[h as int].actor.act_action is Recovering)
}

proof fn lemma_step_keeps_holder_ok(roster: Seq<ActorRecord>, holder: Option<ActorId>, ev: ActorEvents)
    requires
        holder_ok(roster, holder),
    ensures
        holder_ok(actor_event_step(roster, holder, ev).0, actor_event_step(roster, holder, ev).1),
{
    match ev {
        ActorEvents::LookForTackle { entity: e, team, position } => {
            if e < roster.len() && position.in_world() && roster[e as int].actor.act_action is Lookout {
                lemma_scan_in_range(roster, team, position, 0);
            }
        },
        _ => {},
    }
}

/// An actor that recovers never holds the ball: if no recovering actor held
/// it before a list of actor events, none holds it after them. A knocked-down
/// holder releases the ball when its recovery starts.
pub proof fn lemma_recovering_never_holds(roster: Seq<ActorRecord>, holder: Option<ActorId>, evs: Seq<ActorEvents>)
    requires
        holder_ok(roster, holder),
    ensures
        holder_ok(after_actor_events(roster, holder, evs).0, after_actor_events(roster, holder, evs).1),
    decreases evs.len(),
{
    if evs.len() > 0 {
        lemma_recovering_never_holds(roster, holder, evs.drop_last());
        let prev = after_actor_events(roster, holder, evs.drop_last());
        lemma_step_keeps_holder_ok(prev.0, prev.1, evs.last());
    }
}

} // verus!
