//! Decisions of the computer-controlled actors: who runs for a loose ball,
//! which way the team leans, where each actor heads and which path around the
//! opponents it takes.
use vstd::prelude::*;
use crate::actor::{ActorAction, ActorRecord, PLAYER_GUARD_RADIUS, PLAYER_RUN_SPEED, roster_wf};
use crate::ball::{ActorId, BallPossession};
use crate::geometry::{
    WORLD_LIMIT, Vec2i, dist_sq, distance_squared, div_trunc, div_trunc_i128, isqrt, lemma_div_trunc_bound,
    lemma_square_le, root_floor, scale_to_length, scaled, segment_meets_disc, segment_meets_disc_exec,
};
use crate::input::{give_order, ordered};
use crate::team::Team;

verus! {

/// What a computer-controlled actor has been told to do this tick.
#[derive(PartialEq, Eq, Structural, Clone, Copy, Debug)]
pub enum AiRole {
    Move { x: i32, y: i32 },
    Guard,
}

/// The standing preference of a computer-controlled actor, used when no role
/// is forced on it.
#[derive(PartialEq, Eq, Structural, Clone, Copy, Debug)]
pub enum AiFocus {
    GetBall,
    Score,
    GuardBallCarrier,
    MoveOnWings,
    StayForward,
    DefendGoalPost,
    InterceptBallCarrier,
}

/// Which way the computer's team leans this tick.
#[derive(PartialEq, Eq, Structural, Clone, Copy, Debug)]
pub enum AiTeamIntent {
    Offense,
    Defense,
    Undecided,
}

/// The decision state of a computer-controlled actor.
#[derive(PartialEq, Eq, Structural, Clone, Copy, Debug)]
pub struct AiControlled {
    pub role: Option<AiRole>,
    pub offense_focus: AiFocus,
    pub defense_focus: AiFocus,
}

impl AiControlled {
    /// No role yet, with the two given preferences.
    pub fn new(offense_focus: AiFocus, defense_focus: AiFocus) -> (r: AiControlled)
        ensures
            r.role is None,
            r.offense_focus == offense_focus,
            r.defense_focus == defense_focus,
    {
        AiControlled { role: None, offense_focus, defense_focus }
    }

    /// No role yet; stays forward in offense and defends its goal in defense.
    pub fn default() -> (r: AiControlled)
        ensures
            r.role is None,
            r.offense_focus == AiFocus::StayForward,
            r.defense_focus == AiFocus::DefendGoalPost,
    {
        AiControlled {
            role: None,
            offense_focus: AiFocus::StayForward,
            defense_focus: AiFocus::DefendGoalPost,
        }
    }

    /// Gives the actor a role for this tick.
    pub fn assign(&mut self, role: AiRole)
        ensures
            *final(self) == (AiControlled { role: Some(role), ..*old(self) }),
    {
        self.role = Some(role);
    }

    /// Takes the actor's role away.
    pub fn reset(&mut self)
        ensures
            *final(self) == (AiControlled { role: None, ..*old(self) }),
    {
        self.role = None;
    }
}

/// How far a computer-controlled actor looks ahead along a candidate path: the
/// distance it runs in a second.
pub const RAY_LENGTH: i32 = PLAYER_RUN_SPEED;

/// Number of turns of a tenth of a radian tried on each side of the straight
/// line; the next one would pass a quarter turn.
pub const SWEEP_STEPS: usize = 15;

/// Number of candidate directions: the straight line, then each turn to one
/// side and the other.
pub const SWEEP_CANDIDATES: usize = 31;

/// Length of the unit direction in the sweep, before turning.
pub const DIRECTION_SCALE: i32 = 10000;

/// Cosine and sine of `k` tenths of a radian, in ten-thousandths, for `k`
/// from 0 to 15.
pub open spec fn turn_table(k: int) -> (int, int) {
    if k == 0 { (10000, 0) }
    else if k == 1 { (9950, 998) }
    else if k == 2 { (9801, 1987) }
    else if k == 3 { (9553, 2955) }
    else if k == 4 { (9211, 3894) }
    else if k == 5 { (8776, 4794) }
    else if k == 6 { (8253, 5646) }
    else if k == 7 { (7648, 6442) }
    else if k == 8 { (6967, 7174) }
    else if k == 9 { (6216, 7833) }
    else if k == 10 { (5403, 8415) }
    else if k == 11 { (4536, 8912) }
    else if k == 12 { (3624, 9320) }
    else if k == 13 { (2675, 9636) }
    else if k == 14 { (1700, 9854) }
    else { (707, 9975) }
}

/// See `turn_table`.
fn turn(k: usize) -> (r: (i64, i64))
    requires
        k <= SWEEP_STEPS,
    ensures
        r.0 == turn_table(k as int).0,
        r.1 == turn_table(k as int).1,
{
    match k {
        0 => (10000, 0),
        1 => (9950, 998),
        2 => (9801, 1987),
        3 => (9553, 2955),
        4 => (9211, 3894),
        5 => (8776, 4794),
        6 => (8253, 5646),
        7 => (7648, 6442),
        8 => (6967, 7174),
        9 => (6216, 7833),
        10 => (5403, 8415),
        11 => (4536, 8912),
        12 => (3624, 9320),
        13 => (2675, 9636),
        14 => (1700, 9854),
        _ => (707, 9975),
    }
}

/// The turn of candidate `i` in tenths of a radian, signed: 0, then 1, -1,
/// 2, -2, and so on.
pub open spec fn sweep_turn(i: int) -> (int, int) {
    if i % 2 == 1 {
        ((i + 1) / 2, 1)
    } else {
        (i / 2, -1)
    }
}

/// The straight-line direction from `p` toward `target`, about
/// `DIRECTION_SCALE` long; along the x axis when the two coincide.
pub open spec fn bearing(p: Vec2i, target: Vec2i) -> (int, int) {
    if p == target {
        (DIRECTION_SCALE as int, 0)
    } else {
        scaled(target.x - p.x, target.y - p.y, DIRECTION_SCALE as int)
    }
}

/// The end of candidate path `i` from `p` along direction `d`: `d` turned by
/// the candidate's angle and scaled to the ray length.
pub open spec fn candidate_end(p: Vec2i, d: (int, int), i: int) -> Vec2i {
    let (k, sign) = sweep_turn(i);
    let (c, s0) = turn_table(k);
    let s = sign * s0;
    let w = (c * d.0 - s * d.1, s * d.0 + c * d.1);
    let e = scaled(w.0, w.1, RAY_LENGTH as int);
    Vec2i { x: (p.x + e.0) as i32, y: (p.y + e.1) as i32 }
}

/// The path from `p` to `e` keeps clear of the guard disc of every obstacle.
pub open spec fn path_clear(p: Vec2i, e: Vec2i, obstacles: Seq<Vec2i>) -> bool {
    forall|j: int|
        0 <= j < obstacles.len() ==> !segment_meets_disc(
            p,
            e,
            #[trigger] obstacles[j],
            PLAYER_GUARD_RADIUS as int,
        )
}

/// The end of the first clear candidate path from candidate `i` on.
pub open spec fn first_clear(p: Vec2i, d: (int, int), obstacles: Seq<Vec2i>, i: int) -> Option<Vec2i>
    decreases SWEEP_CANDIDATES - i,
{
    if i < 0 || i >= SWEEP_CANDIDATES {
        None
    } else if path_clear(p, candidate_end(p, d, i), obstacles) {
        Some(candidate_end(p, d, i))
    } else {
        first_clear(p, d, obstacles, i + 1)
    }
}

/// The end of a candidate path from `p`, given the turned direction `w`.
fn path_end(p: Vec2i, w: (i64, i64)) -> (r: Vec2i)
    requires
        p.in_world(),
        -50_000_000_000 <= w.0 <= 50_000_000_000,
        -50_000_000_000 <= w.1 <= 50_000_000_000,
    ensures
        r.x == p.x + scaled(w.0 as int, w.1 as int, RAY_LENGTH as int).0,
        r.y == p.y + scaled(w.0 as int, w.1 as int, RAY_LENGTH as int).1,
        r.near_world(),
{
    let e = scale_to_length(w.0, w.1, RAY_LENGTH as i64);
    Vec2i { x: (p.x as i64 + e.0) as i32, y: (p.y as i64 + e.1) as i32 }
}

/// Whether the path from `p` to `e` keeps clear of every obstacle's guard disc.
fn is_path_clear(p: Vec2i, e: Vec2i, obstacles: &Vec<Vec2i>) -> (r: bool)
    requires
        p.in_world(),
        e.near_world(),
        forall|j: int| 0 <= j < obstacles@.len() ==> (#[trigger] obstacles@[j]).in_world(),
    ensures
        r == path_clear(p, e, obstacles@),
{
    let n = obstacles.len();
    let mut j: usize = 0;
    while j < n
        invariant
            n == obstacles@.len(),
            0 <= j <= n,
            p.in_world(),
            e.near_world(),
            forall|k: int| 0 <= k < obstacles@.len() ==> (#[trigger] obstacles@[k]).in_world(),
            forall|k: int|
                0 <= k < j ==> !segment_meets_disc(
                    p,
                    e,
                    #[trigger] obstacles@[k],
                    PLAYER_GUARD_RADIUS as int,
                ),
        decreases n - j,
    {
        if segment_meets_disc_exec(p, e, obstacles[j], PLAYER_GUARD_RADIUS as i64) {
            return false;
        }
        j += 1;
    }
    true
}

/// The path from `p` to `e` if it keeps clear of the guard disc of every
/// obstacle (its end is returned), nothing if some disc blocks it.
pub fn get_free_vector(p: Vec2i, e: Vec2i, obstacles: &Vec<Vec2i>) -> (r: Option<Vec2i>)
    requires
        p.in_world(),
        e.near_world(),
        forall|j: int| 0 <= j < obstacles@.len() ==> (#[trigger] obstacles@[j]).in_world(),
    ensures
        r == if path_clear(p, e, obstacles@) {
            Some(e)
        } else {
            None
        },
        r is None <==> exists|j: int|
            0 <= j < obstacles@.len() && segment_meets_disc(p, e, #[trigger] obstacles@[j], PLAYER_GUARD_RADIUS as int),
{
    if is_path_clear(p, e, obstacles) {
        Some(e)
    } else {
        None
    }
}

/// The search from candidate `i` on gives the first clear candidate from `i`
/// on, and nothing only when none of them is clear.
pub proof fn lemma_first_clear_is_first(p: Vec2i, d: (int, int), obstacles: Seq<Vec2i>, i: int)
    requires
        0 <= i,
    ensures
        first_clear(p, d, obstacles, i) matches Some(e) ==> exists|k: int|
            i <= k < SWEEP_CANDIDATES && e == candidate_end(p, d, k) && path_clear(p, e, obstacles)
                && forall|j: int| i <= j < k ==> !path_clear(p, #[trigger] candidate_end(p, d, j), obstacles),
        first_clear(p, d, obstacles, i) is None ==> forall|j: int|
            i <= j < SWEEP_CANDIDATES ==> !path_clear(p, #[trigger] candidate_end(p, d, j), obstacles),
    decreases SWEEP_CANDIDATES - i,
{
    if i < SWEEP_CANDIDATES {
        lemma_first_clear_is_first(p, d, obstacles, i + 1);
        if !path_clear(p, candidate_end(p, d, i), obstacles) {
            if let Some(e) = first_clear(p, d, obstacles, i + 1) {
                let k = choose|k: int|
                    i + 1 <= k < SWEEP_CANDIDATES && e == candidate_end(p, d, k) && path_clear(p, e, obstacles)
                        && forall|j: int| i + 1 <= j < k ==> !path_clear(p, #[trigger] candidate_end(p, d, j), obstacles);
                assert forall|j: int| i <= j < k implies !path_clear(p, #[trigger] candidate_end(p, d, j), obstacles) by {
                    if j > i {
                    }
                }
            }
        }
    }
}

/// Picks the direction in which an actor at `p` heads for `target`: starting
/// from the straight line, it turns a tenth of a radian more at each try, to
/// one side and then the other, up to a quarter turn, and takes the first path
/// of the ray length that keeps clear of every obstacle's guard disc. Returns
/// the end of that path, or nothing if every path is blocked. The chosen path
/// turns by the smallest angle that clears the obstacles.
pub fn choose_direction(p: Vec2i, target: Vec2i, obstacles: &Vec<Vec2i>) -> (r: Option<Vec2i>)
    requires
        p.in_world(),
        forall|j: int| 0 <= j < obstacles@.len() ==> (#[trigger] obstacles@[j]).in_world(),
    ensures
        r == first_clear(p, bearing(p, target), obstacles@, 0),
        r matches Some(e) ==> e.near_world(),
        r matches Some(e) ==> exists|k: int|
            0 <= k < SWEEP_CANDIDATES && e == candidate_end(p, bearing(p, target), k) && path_clear(p, e, obstacles@)
                && forall|j: int| 0 <= j < k ==> !path_clear(p, #[trigger] candidate_end(p, bearing(p, target), j), obstacles@),
{
    proof {
        lemma_first_clear_is_first(p, bearing(p, target), obstacles@, 0);
    }
    let d: (i64, i64) = if p == target {
        (DIRECTION_SCALE as i64, 0)
    } else {
        scale_to_length(
            target.x as i64 - p.x as i64,
            target.y as i64 - p.y as i64,
            DIRECTION_SCALE as i64,
        )
    };
    assert(d.0 == bearing(p, target).0 && d.1 == bearing(p, target).1);
    let mut i: usize = 0;
    while i < SWEEP_CANDIDATES
        invariant
            0 <= i <= SWEEP_CANDIDATES,
            p.in_world(),
            forall|j: int| 0 <= j < obstacles@.len() ==> (#[trigger] obstacles@[j]).in_world(),
            -10000 <= d.0 <= 10000,
            -10000 <= d.1 <= 10000,
            d.0 == bearing(p, target).0,
            d.1 == bearing(p, target).1,
            first_clear(p, bearing(p, target), obstacles@, 0) == first_clear(
                p,
                bearing(p, target),
                obstacles@,
                i as int,
            ),
        decreases SWEEP_CANDIDATES - i,
    {
        let k = if i % 2 == 1 {
            (i + 1) / 2
        } else {
            i / 2
        };
        let (c, s0) = turn(k);
        let s = if i % 2 == 1 {
            s0
        } else {
            -s0
        };
        proof {
            assert(-10000 <= c <= 10000 && -10000 <= s <= 10000);
            assert(-100_000_000 <= c * d.0 <= 100_000_000) by (nonlinear_arith)
                requires
                    -10000 <= c <= 10000,
                    -10000 <= d.0 <= 10000,
            ;
            assert(-100_000_000 <= s * d.1 <= 100_000_000) by (nonlinear_arith)
                requires
                    -10000 <= s <= 10000,
                    -10000 <= d.1 <= 10000,
            ;
            assert(-100_000_000 <= s * d.0 <= 100_000_000) by (nonlinear_arith)
                requires
                    -10000 <= s <= 10000,
                    -10000 <= d.0 <= 10000,
            ;
            assert(-100_000_000 <= c * d.1 <= 100_000_000) by (nonlinear_arith)
                requires
                    -10000 <= c <= 10000,
                    -10000 <= d.1 <= 10000,
            ;
        }
        let w = (c * d.0 - s * d.1, s * d.0 + c * d.1);
        let e = path_end(p, w);
        proof {
            let ii = i as int;
            if ii % 2 == 1 {
                assert(sweep_turn(ii) == ((ii + 1) / 2, 1int));
                assert(s == s0);
                assert(sweep_turn(ii).1 * s0 == s);
            } else {
                assert(sweep_turn(ii) == (ii / 2, -1int));
                assert(s == -s0);
                let sg = sweep_turn(ii).1;
                assert(sg * s0 == s) by (nonlinear_arith)
                    requires
                        sg == -1,
                        s == -s0,
                ;
            }
            assert(sweep_turn(ii).0 == k as int);
            assert(turn_table(sweep_turn(ii).0) == (c as int, s0 as int));
        }
        assert(e == candidate_end(p, bearing(p, target), i as int));
        if is_path_clear(p, e, obstacles) {
            proof {
                let dd = bearing(p, target);
                assert(first_clear(p, dd, obstacles@, 0) == Some(e));
                lemma_first_clear_is_first(p, dd, obstacles@, 0);
                let k = choose|k: int|
                    0 <= k < SWEEP_CANDIDATES && e == candidate_end(p, dd, k) && path_clear(p, e, obstacles@)
                        && forall|j: int| 0 <= j < k ==> !path_clear(p, #[trigger] candidate_end(p, dd, j), obstacles@);
                assert(0 <= k < SWEEP_CANDIDATES && e == candidate_end(p, dd, k) && path_clear(p, e, obstacles@));
            }
            return Some(e);
        }
        i += 1;
    }
    None
}

/// How far ahead of itself a wing runner aims.
pub const AI_FORWARD_MOMENTUM: i32 = 100;

/// Width of the band along an edge of the field in which a wing runner aims.
pub const AI_WING_MARGIN: i32 = 100;

/// A computer-controlled actor counts as this much nearer to a loose ball
/// when deciding whether it will be within guard range of it first.
pub const AI_GUARD_MARGIN: i32 = 50;

/// Vertical extent of the playing field.
#[derive(PartialEq, Eq, Structural, Clone, Copy, Debug)]
pub struct Arena {
    pub top: i32,
    pub bottom: i32,
}

/// The actor that holds the ball, or that the computer expects to reach it
/// first, with where it is heading if known.
#[derive(PartialEq, Eq, Structural, Clone, Copy, Debug)]
pub struct ActorWithBall {
    pub entity: ActorId,
    pub is_ai: bool,
    pub position: Vec2i,
    pub target_position: Option<Vec2i>,
}

/// Actor `i` is, among the computer's actors (`ai_side`) or the player's, the
/// first of those nearest to `ball`.
pub open spec fn is_first_closest(roster: Seq<ActorRecord>, ball: Vec2i, i: int, ai_side: bool) -> bool {
    &&& 0 <= i < roster.len()
    &&& (roster[i].ai is Some) == ai_side
    &&& forall|j: int|
        0 <= j < roster.len() && ((#[trigger] roster[j]).ai is Some) == ai_side ==> dist_sq(
            roster[i].position,
            ball,
        ) <= dist_sq(roster[j].position, ball)
    &&& forall|j: int|
        0 <= j < i && ((#[trigger] roster[j]).ai is Some) == ai_side ==> dist_sq(roster[j].position, ball)
            > dist_sq(roster[i].position, ball)
}

/// The computer's and the player's actors nearest to `ball` (the first of
/// each in the roster on a tie), if each side has one.
pub fn get_closest_from_query(ball: Vec2i, roster: &Vec<ActorRecord>) -> (r: Option<(ActorId, ActorId)>)
    requires
        ball.in_world(),
        roster_wf(roster@),
    ensures
        r matches Some((a, p)) ==> is_first_closest(roster@, ball, a as int, true)
            && is_first_closest(roster@, ball, p as int, false),
        r is None ==> (forall|j: int| 0 <= j < roster@.len() ==> (#[trigger] roster@[j]).ai is None)
            || (forall|j: int| 0 <= j < roster@.len() ==> (#[trigger] roster@[j]).ai is Some),
{
    let mut closest_ai: Option<(usize, i64)> = None;
    let mut closest_player: Option<(usize, i64)> = None;
    let n = roster.len();
    let mut i: usize = 0;
    while i < n
        invariant
            n == roster@.len(),
            0 <= i <= n,
            ball.in_world(),
            roster_wf(roster@),
            match closest_ai {
                Some((a, d)) => a < i && d == dist_sq(roster@[a as int].position, ball)
                    && is_first_closest(roster@.subrange(0, i as int), ball, a as int, true),
                None => forall|j: int| 0 <= j < i ==> (#[trigger] roster@[j]).ai is None,
            },
            match closest_player {
                Some((p, d)) => p < i && d == dist_sq(roster@[p as int].position, ball)
                    && is_first_closest(roster@.subrange(0, i as int), ball, p as int, false),
                None => forall|j: int| 0 <= j < i ==> (#[trigger] roster@[j]).ai is Some,
            },
        decreases n - i,
    {
        let ghost sub = roster@.subrange(0, i as int + 1);
        assert(roster@[i as int].wf());
        let d = distance_squared(roster[i].position, ball);
        if roster[i].ai.is_some() {
            let better = match closest_ai {
                None => true,
                Some((_, best)) => best > d,
            };
            if better {
                closest_ai = Some((i, d));
            }
        } else {
            let better = match closest_player {
                None => true,
                Some((_, best)) => best > d,
            };
            if better {
                closest_player = Some((i, d));
            }
        }
        proof {
            assert forall|j: int| 0 <= j < i + 1 implies #[trigger] sub[j] == roster@[j] by {}
        }
        i += 1;
    }
    assert(roster@.subrange(0, n as int) == roster@);
    match (closest_ai, closest_player) {
        (Some((a, _)), Some((p, _))) => Some((a, p)),
        _ => None,
    }
}

/// `sqrt(ai_sq) - AI_GUARD_MARGIN < sqrt(pl_sq)`: shortened by the margin,
/// the computer's actor is nearer than the player's.
pub open spec fn reaches_guard_first(ai_sq: int, pl_sq: int) -> bool {
    let diff = ai_sq - pl_sq - AI_GUARD_MARGIN * AI_GUARD_MARGIN;
    diff < 0 || diff * diff < 4 * AI_GUARD_MARGIN * AI_GUARD_MARGIN * pl_sq
}

/// The point on the way from `a` to `b` short of `b` by the guard margin,
/// where `dist` is the distance between them rounded down.
pub open spec fn intercept_point(a: Vec2i, b: Vec2i, dist: int) -> Vec2i {
    if dist == 0 {
        a
    } else {
        Vec2i {
            x: (b.x - div_trunc((b.x - a.x) * AI_GUARD_MARGIN, dist)) as i32,
            y: (b.y - div_trunc((b.y - a.y) * AI_GUARD_MARGIN, dist)) as i32,
        }
    }
}

/// Where the computer's actor nearest to a loose ball heads, and whether it
/// expects to take the ball: straight to the ball if it is nearer than the
/// player's nearest actor; short of it by the guard margin if it will only be
/// within guard range first; nowhere otherwise.
pub open spec fn pursuit(ai_pos: Vec2i, ball: Vec2i, pl_sq: int) -> Option<(Vec2i, bool)> {
    let ai_sq = dist_sq(ai_pos, ball);
    if ai_sq < pl_sq {
        Some((ball, true))
    } else if reaches_guard_first(ai_sq, pl_sq) {
        Some((intercept_point(ai_pos, ball, root_floor(ai_sq)), false))
    } else {
        None
    }
}

/// See `pursuit`.
pub fn pursue_ball(ai_pos: Vec2i, ball: Vec2i, pl_sq: i64) -> (r: Option<(Vec2i, bool)>)
    requires
        ai_pos.in_world(),
        ball.in_world(),
        0 <= pl_sq <= 8_000_000_000_000,
    ensures
        r == pursuit(ai_pos, ball, pl_sq as int),
        r matches Some((t, _)) ==> t.near_world(),
{
    let ai_sq = distance_squared(ai_pos, ball);
    if ai_sq < pl_sq {
        return Some((ball, true));
    }
    let diff = ai_sq as i128 - pl_sq as i128 - 2500;
    proof {
        lemma_square_le(diff as int, 16_000_000_000_000);
    }
    if diff < 0 || diff * diff < 10000 * pl_sq as i128 {
        let dist = isqrt(ai_sq as u128);
        if dist == 0 {
            return Some((ai_pos, false));
        }
        let dx = ball.x as i128 - ai_pos.x as i128;
        let dy = ball.y as i128 - ai_pos.y as i128;
        proof {
            let d = dist as int;
            assert((ai_pos.x - ball.x) * (ai_pos.x - ball.x) == dx * dx) by (nonlinear_arith)
                requires
                    dx == ball.x - ai_pos.x,
            ;
            assert((ai_pos.y - ball.y) * (ai_pos.y - ball.y) == dy * dy) by (nonlinear_arith)
                requires
                    dy == ball.y - ai_pos.y,
            ;
            assert(dx * dx <= ai_sq) by (nonlinear_arith)
                requires
                    ai_sq == dx * dx + dy * dy,
            ;
            assert(dy * dy <= ai_sq) by (nonlinear_arith)
                requires
                    ai_sq == dx * dx + dy * dy,
            ;
            assert(-d <= dx <= d) by (nonlinear_arith)
                requires
                    dx * dx < (d + 1) * (d + 1),
                    d >= 0,
            ;
            assert(-d <= dy <= d) by (nonlinear_arith)
                requires
                    dy * dy < (d + 1) * (d + 1),
                    d >= 0,
            ;
            lemma_div_trunc_bound(dx * 50, d);
            lemma_div_trunc_bound(dy * 50, d);
            let qx = div_trunc(dx * 50, d);
            let qy = div_trunc(dy * 50, d);
            assert(-(d * 50) <= dx * 50 <= d * 50);
            assert(-(d * 50) <= dy * 50 <= d * 50);
            assert(-50 <= qx <= 50) by (nonlinear_arith)
                requires
                    -(d * 50) <= d * qx <= d * 50,
                    d >= 1,
            ;
            assert(-50 <= qy <= 50) by (nonlinear_arith)
                requires
                    -(d * 50) <= d * qy <= d * 50,
                    d >= 1,
            ;
        }
        let qx = div_trunc_i128(dx * 50, dist as i128);
        let qy = div_trunc_i128(dy * 50, dist as i128);
        return Some((Vec2i { x: (ball.x as i128 - qx) as i32, y: (ball.y as i128 - qy) as i32 }, false));
    }
    None
}

/// The team's lean: offense when one of the computer's actors holds (or is
/// expected to take) the ball, defense when one of the player's does,
/// undecided otherwise.
pub open spec fn team_intent(actor_with_ball: Option<ActorWithBall>) -> AiTeamIntent {
    match actor_with_ball {
        None => AiTeamIntent::Undecided,
        Some(a) => if a.is_ai {
            AiTeamIntent::Offense
        } else {
            AiTeamIntent::Defense
        },
    }
}

/// See `team_intent`.
pub fn get_ai_team_intent(actor_with_ball: Option<ActorWithBall>) -> (r: AiTeamIntent)
    ensures
        r == team_intent(actor_with_ball),
{
    match actor_with_ball {
        None => AiTeamIntent::Undecided,
        Some(a) => if a.is_ai {
            AiTeamIntent::Offense
        } else {
            AiTeamIntent::Defense
        },
    }
}

/// The focus that governs an actor under `intent`; when the team is
/// undecided, `pick_offense` settles it.
pub open spec fn focus_for(ai: AiControlled, intent: AiTeamIntent, pick_offense: bool) -> AiFocus {
    match intent {
        AiTeamIntent::Offense => ai.offense_focus,
        AiTeamIntent::Defense => ai.defense_focus,
        AiTeamIntent::Undecided => if pick_offense {
            ai.offense_focus
        } else {
            ai.defense_focus
        },
    }
}

/// See `focus_for`.
pub fn choose_focus(ai: &AiControlled, intent: AiTeamIntent, pick_offense: bool) -> (r: AiFocus)
    ensures
        r == focus_for(*ai, intent, pick_offense),
{
    match intent {
        AiTeamIntent::Offense => ai.offense_focus,
        AiTeamIntent::Defense => ai.defense_focus,
        AiTeamIntent::Undecided => if pick_offense {
            ai.offense_focus
        } else {
            ai.defense_focus
        },
    }
}

/// Relies on `rand::Rng::gen_range` over the thread-local generator: a value
/// drawn from `lo..hi`, which it asserts to be non-empty.
#[verifier::external_body]
fn draw_in_range(lo: i32, hi: i32) -> (r: i32)
    requires
        lo < hi,
    ensures
        lo <= r < hi,
{
    rand::Rng::gen_range(&mut rand::thread_rng(), lo..hi)
}

impl AiControlled {
    /// The focus that governs the actor under `intent`: the offense focus in
    /// offense, the defense focus in defense, either one, at random, when the
    /// team is undecided.
    pub fn get_focus(&self, intent: &AiTeamIntent) -> (r: AiFocus)
        ensures
            *intent == AiTeamIntent::Offense ==> r == self.offense_focus,
            *intent == AiTeamIntent::Defense ==> r == self.defense_focus,
            r == self.offense_focus || r == self.defense_focus,
    {
        let pick_offense = match intent {
            AiTeamIntent::Undecided => draw_in_range(0, 2) == 0,
            _ => true,
        };
        choose_focus(self, *intent, pick_offense)
    }
}

/// `1` for zero and above, `-1` below.
pub open spec fn signum(v: int) -> int {
    if v >= 0 {
        1
    } else {
        -1
    }
}

/// The band of heights along the edge nearer to height `y` in which a wing
/// runner aims, as `lo..hi`.
pub open spec fn wing_band(arena: Arena, y: int) -> (int, int) {
    let to_top = if arena.top >= y { arena.top - y } else { y - arena.top };
    let to_bottom = if arena.bottom >= y { arena.bottom - y } else { y - arena.bottom };
    if to_top <= to_bottom {
        (arena.top - AI_WING_MARGIN, arena.top as int)
    } else {
        (arena.bottom as int, arena.bottom + AI_WING_MARGIN)
    }
}

/// The random values a target may need: a height in the wing band, and the
/// offsets from the ball carrier's target of an actor guarding it.
#[derive(PartialEq, Eq, Structural, Clone, Copy, Debug)]
pub struct FocusDraws {
    pub wing_y: i32,
    pub guard_dx: i32,
    pub guard_dy: i32,
}

/// Offsets of a guard from the carrier's target: `guard_dx` in `0..20`
/// backward, `guard_dy` in `30..60` to the guard's side.
pub open spec fn draws_in_range(d: FocusDraws) -> bool {
    &&& 0 <= d.guard_dx < 20
    &&& 30 <= d.guard_dy < 60
}

/// Where an actor at `me` with `focus` heads. Scoring and every forward focus
/// aim at the opponent's goal, defending at the own goal; a wing runner aims
/// ahead by the forward momentum at height `wing_y`; a guard aims beside the
/// ball carrier's target (from that target, `guard_dx` away from the
/// opponent's goal and `guard_dy` toward the guard), or at the carrier if its
/// target is unknown, or at the opponent's goal if nobody has the ball.
pub open spec fn focus_target(
    focus: AiFocus,
    me: Vec2i,
    carrier: Option<ActorWithBall>,
    enemy_goal: Vec2i,
    own_goal: Vec2i,
    draws: FocusDraws,
) -> Vec2i {
    match focus {
        AiFocus::MoveOnWings => Vec2i {
            x: (me.x + AI_FORWARD_MOMENTUM * signum(enemy_goal.x - me.x)) as i32,
            y: draws.wing_y,
        },
        AiFocus::GuardBallCarrier => match carrier {
            Some(bc) => match bc.target_position {
                Some(tp) => Vec2i {
                    x: (tp.x + draws.guard_dx * signum(me.x - enemy_goal.x)) as i32,
                    y: (tp.y + draws.guard_dy * signum(me.y - tp.y)) as i32,
                },
                None => bc.position,
            },
            None => enemy_goal,
        },
        AiFocus::DefendGoalPost => own_goal,
        _ => enemy_goal,
    }
}

/// See `focus_target`.
pub fn get_focus_target(
    focus: AiFocus,
    me: Vec2i,
    carrier: Option<ActorWithBall>,
    enemy_goal: Vec2i,
    own_goal: Vec2i,
    draws: FocusDraws,
) -> (r: Vec2i)
    requires
        me.in_world(),
        carrier matches Some(bc) ==> (bc.target_position matches Some(tp) ==> tp.near_world()),
        draws_in_range(draws),
    ensures
        r == focus_target(focus, me, carrier, enemy_goal, own_goal, draws),
{
    match focus {
        AiFocus::MoveOnWings => {
            let step = if enemy_goal.x as i64 - me.x as i64 >= 0 {
                AI_FORWARD_MOMENTUM
            } else {
                -AI_FORWARD_MOMENTUM
            };
            Vec2i { x: me.x + step, y: draws.wing_y }
        },
        AiFocus::GuardBallCarrier => match carrier {
            Some(bc) => match bc.target_position {
                Some(tp) => {
                    let ox = if me.x as i64 - enemy_goal.x as i64 >= 0 {
                        draws.guard_dx
                    } else {
                        -draws.guard_dx
                    };
                    let oy = if me.y as i64 - tp.y as i64 >= 0 {
                        draws.guard_dy
                    } else {
                        -draws.guard_dy
                    };
                    Vec2i { x: tp.x + ox, y: tp.y + oy }
                },
                None => bc.position,
            },
            None => enemy_goal,
        },
        AiFocus::DefendGoalPost => own_goal,
        _ => enemy_goal,
    }
}

/// The positions of the actors that are not of `team`, in roster order.
pub open spec fn opponent_positions(roster: Seq<ActorRecord>, team: Team) -> Seq<Vec2i>
    decreases roster.len(),
{
    if roster.len() == 0 {
        seq![]
    } else {
        let prev = opponent_positions(roster.drop_last(), team);
        if roster.last().team != team {
            prev.push(roster.last().position)
        } else {
            prev
        }
    }
}

proof fn lemma_opponents_in_world(roster: Seq<ActorRecord>, team: Team)
    requires
        roster_wf(roster),
    ensures
        forall|j: int|
            0 <= j < opponent_positions(roster, team).len() ==> (#[trigger] opponent_positions(
                roster,
                team,
            )[j]).in_world(),
    decreases roster.len(),
{
    if roster.len() > 0 {
        let prev = roster.drop_last();
        assert forall|j: int| 0 <= j < prev.len() implies (#[trigger] prev[j]).wf() by {
            assert(prev[j] == roster[j]);
        }
        lemma_opponents_in_world(prev, team);
        assert(roster[roster.len() - 1].wf());
        assert(prev == roster.drop_last());
        let op = opponent_positions(prev, team);
        assert forall|j: int|
            0 <= j < opponent_positions(roster, team).len() implies (#[trigger] opponent_positions(
                roster,
                team,
            )[j]).in_world() by {
            if j < op.len() {
                assert(op[j].in_world());
            }
        }
    }
}

/// The positions of the actors that are not of `team`.
fn opponents_of(roster: &Vec<ActorRecord>, team: Team) -> (r: Vec<Vec2i>)
    requires
        roster_wf(roster@),
    ensures
        r@ == opponent_positions(roster@, team),
        forall|j: int| 0 <= j < r@.len() ==> (#[trigger] r@[j]).in_world(),
{
    proof {
        lemma_opponents_in_world(roster@, team);
    }
    let mut out: Vec<Vec2i> = Vec::new();
    let n = roster.len();
    let mut i: usize = 0;
    while i < n
        invariant
            n == roster@.len(),
            0 <= i <= n,
            out@ == opponent_positions(roster@.subrange(0, i as int), team),
        decreases n - i,
    {
        proof {
            let sub = roster@.subrange(0, i as int + 1);
            assert(sub.drop_last() == roster@.subrange(0, i as int));
        }
        if roster[i].team != team {
            out.push(roster[i].position);
        }
        i += 1;
    }
    assert(roster@.subrange(0, n as int) == roster@);
    out
}

/// The computer's actor that pursues a loose `ball`, with where it heads: the
/// first nearest of the computer's actors, if `pursuit` sends it anywhere
/// given the player's first nearest actor.
pub open spec fn pursuit_target(roster: Seq<ActorRecord>, ball: Vec2i) -> Option<(int, Vec2i)> {
    if exists|a: int, p: int|
        #![trigger is_first_closest(roster, ball, a, true), is_first_closest(roster, ball, p, false)]
        is_first_closest(roster, ball, a, true) && is_first_closest(roster, ball, p, false) {
        let (a, p) = choose|a: int, p: int|
            #![trigger is_first_closest(roster, ball, a, true), is_first_closest(roster, ball, p, false)]
            is_first_closest(roster, ball, a, true) && is_first_closest(roster, ball, p, false);
        match pursuit(roster[a].position, ball, dist_sq(roster[p].position, ball)) {
            Some((t, _)) => Some((a, t)),
            None => None,
        }
    } else {
        None
    }
}

/// The record differs from `old` at most in the role of its decision state.
pub open spec fn roles_only(old: ActorRecord, cur: ActorRecord) -> bool {
    &&& cur == ActorRecord { ai: cur.ai, ..old }
    &&& match old.ai {
        None => cur.ai is None,
        Some(a) => cur.ai matches Some(c) && c.offense_focus == a.offense_focus && c.defense_focus
            == a.defense_focus,
    }
}

/// The record after a tick of decisions: a player's actor is untouched; a
/// computer's actor keeps its preferences, and runs to where its role says,
/// ordered as the player's orders are, or keeps its action if it has no role.
pub open spec fn planned(old: ActorRecord, new: ActorRecord) -> bool {
    &&& new == ActorRecord { ai: new.ai, actor: new.actor, ..old }
    &&& match old.ai {
        None => new == old,
        Some(a) => new.ai matches Some(n) && n.offense_focus == a.offense_focus && n.defense_focus
            == a.defense_focus && match n.role {
            Some(AiRole::Move { x, y }) => new.actor == ordered(old.actor, ActorAction::Running { x, y }),
            _ => new.actor == old.actor,
        },
    }
}

proof fn lemma_first_closest_unique(roster: Seq<ActorRecord>, ball: Vec2i, a: int, b: int, side: bool)
    requires
        is_first_closest(roster, ball, a, side),
        is_first_closest(roster, ball, b, side),
    ensures
        a == b,
{
    if a < b {
        assert(roster[a].ai is Some == side);
    } else if b < a {
        assert(roster[b].ai is Some == side);
    }
}

/// Sets the role of the computer's actor `i`.
fn set_role(roster: &mut Vec<ActorRecord>, i: usize, role: Option<AiRole>)
    requires
        i < old(roster)@.len(),
        old(roster)@[i as int].ai is Some,
    ensures
        final(roster)@ == old(roster)@.update(
            i as int,
            ActorRecord {
                ai: Some(AiControlled { role, ..old(roster)@[i as int].ai.unwrap() }),
                ..old(roster)@[i as int]
            },
        ),
{
    let ai = roster[i].ai.unwrap();
    roster[i].ai = Some(AiControlled { role, ..ai });
}

/// The random values that `focus` needs for an actor at height `y`.
fn draw_for(focus: AiFocus, arena: Arena, y: i32) -> (r: FocusDraws)
    requires
        -WORLD_LIMIT <= arena.top <= WORLD_LIMIT,
        -WORLD_LIMIT <= arena.bottom <= WORLD_LIMIT,
    ensures
        draws_in_range(r),
        focus == AiFocus::MoveOnWings ==> wing_band(arena, y as int).0 <= r.wing_y < wing_band(arena, y as int).1,
{
    let wing_y = match focus {
        AiFocus::MoveOnWings => {
            let to_top = if arena.top >= y { arena.top as i64 - y as i64 } else { y as i64 - arena.top as i64 };
            let to_bottom = if arena.bottom >= y { arena.bottom as i64 - y as i64 } else { y as i64 - arena.bottom as i64 };
            if to_top <= to_bottom {
                draw_in_range(arena.top - AI_WING_MARGIN, arena.top)
            } else {
                draw_in_range(arena.bottom, arena.bottom + AI_WING_MARGIN)
            }
        },
        _ => 0,
    };
    let (guard_dx, guard_dy) = match focus {
        AiFocus::GuardBallCarrier => (draw_in_range(0, 20), draw_in_range(30, 60)),
        _ => (0, 30),
    };
    FocusDraws { wing_y, guard_dx, guard_dy }
}

proof fn lemma_first_closest_transfer(r1: Seq<ActorRecord>, r2: Seq<ActorRecord>, ball: Vec2i, i: int, side: bool)
    requires
        r1.len() == r2.len(),
        forall|j: int|
            0 <= j < r1.len() ==> ((#[trigger] r1[j]).ai is Some) == (r2[j].ai is Some) && r1[j].position
                == r2[j].position,
    ensures
        is_first_closest(r1, ball, i, side) == is_first_closest(r2, ball, i, side),
{
    if is_first_closest(r1, ball, i, side) {
        assert forall|j: int|
            0 <= j < r2.len() && ((#[trigger] r2[j]).ai is Some) == side implies dist_sq(r2[i].position, ball)
                <= dist_sq(r2[j].position, ball) by {
            assert(r1[j].ai is Some == side);
        }
        assert forall|j: int|
            0 <= j < i && ((#[trigger] r2[j]).ai is Some) == side implies dist_sq(r2[j].position, ball)
                > dist_sq(r2[i].position, ball) by {
            assert(r1[j].ai is Some == side);
        }
    }
    if is_first_closest(r2, ball, i, side) {
        assert forall|j: int|
            0 <= j < r1.len() && ((#[trigger] r1[j]).ai is Some) == side implies dist_sq(r1[i].position, ball)
                <= dist_sq(r1[j].position, ball) by {
            assert(r2[j].ai is Some == side);
        }
        assert forall|j: int|
            0 <= j < i && ((#[trigger] r1[j]).ai is Some) == side implies dist_sq(r1[j].position, ball)
                > dist_sq(r1[i].position, ball) by {
            assert(r2[j].ai is Some == side);
        }
    }
}

/// The carrier that the chase of a loose `ball` gives: the computer's actor
/// that pursues it, if `pursuit` expects it to take the ball.
pub open spec fn chase_carrier(roster: Seq<ActorRecord>, ball: Vec2i) -> Option<ActorWithBall> {
    if exists|a: int, p: int|
        #![trigger is_first_closest(roster, ball, a, true), is_first_closest(roster, ball, p, false)]
        is_first_closest(roster, ball, a, true) && is_first_closest(roster, ball, p, false) {
        let (a, p) = choose|a: int, p: int|
            #![trigger is_first_closest(roster, ball, a, true), is_first_closest(roster, ball, p, false)]
            is_first_closest(roster, ball, a, true) && is_first_closest(roster, ball, p, false);
        match pursuit(roster[a].position, ball, dist_sq(roster[p].position, ball)) {
            Some((_, true)) => Some(
                ActorWithBall {
                    entity: a as ActorId,
                    is_ai: true,
                    position: roster[a].position,
                    target_position: Some(ball),
                },
            ),
            _ => None,
        }
    } else {
        None
    }
}

/// The ball carrier of a tick: the holder, if the roster has it; with the
/// ball loose at `ball`, the computer's actor expected to take it.
pub open spec fn tick_carrier(roster: Seq<ActorRecord>, holder: Option<ActorId>, ball: Option<Vec2i>) -> Option<
    ActorWithBall,
> {
    match holder {
        Some(h) => if h < roster.len() {
            Some(
                ActorWithBall {
                    entity: h,
                    is_ai: roster[h as int].ai is Some,
                    position: roster[h as int].position,
                    target_position: None,
                },
            )
        } else {
            None
        },
        None => match ball {
            Some(b) => chase_carrier(roster, b),
            None => None,
        },
    }
}

/// The role a path gives: a run to its end, or none when every path is
/// blocked.
pub open spec fn path_role(e: Option<Vec2i>) -> Option<AiRole> {
    match e {
        Some(e) => Some(AiRole::Move { x: e.x, y: e.y }),
        None => None,
    }
}

/// The path of the roster's actor `h` toward the opponent's goal, clear of
/// the guard discs of the actors of the other side.
pub open spec fn holder_path(roster: Seq<ActorRecord>, h: int, enemy_goal: Vec2i) -> Option<Vec2i> {
    first_clear(
        roster[h].position,
        bearing(roster[h].position, enemy_goal),
        opponent_positions(roster, roster[h].team),
        0,
    )
}

/// The carrier once a computer's holder has chosen its path toward the
/// opponent's goal: the end of that path is its target.
pub open spec fn with_holder_path(
    roster: Seq<ActorRecord>,
    holder: Option<ActorId>,
    carrier: Option<ActorWithBall>,
    enemy_goal: Vec2i,
) -> Option<ActorWithBall> {
    match carrier {
        Some(bc) => if bc.is_ai && holder == Some(bc.entity) && bc.entity < roster.len() {
            match holder_path(roster, bc.entity as int, enemy_goal) {
                Some(e) => Some(ActorWithBall { target_position: Some(e), ..bc }),
                None => Some(bc),
            }
        } else {
            Some(bc)
        },
        None => None,
    }
}

/// The tick's carrier (see `tick_carrier`) once a computer's holder has chosen
/// its path (see `with_holder_path`).
pub open spec fn heading_carrier(
    roster: Seq<ActorRecord>,
    holder: Option<ActorId>,
    ball: Option<Vec2i>,
    enemy_goal: Vec2i,
) -> Option<ActorWithBall> {
    with_holder_path(roster, holder, tick_carrier(roster, holder, ball), enemy_goal)
}

/// Actor `i` is the computer's actor that chases the loose ball this tick.
pub open spec fn is_chaser(roster: Seq<ActorRecord>, holder: Option<ActorId>, ball: Option<Vec2i>, i: int) -> bool {
    &&& holder is None
    &&& ball is Some
    &&& pursuit_target(roster, ball.unwrap()) matches Some((a, _)) && a == i
}

/// An actor with preferences `ai` at `pos` heads where its focus says: for
/// some settlement of an undecided lean (`pick`) and some random values in
/// their ranges (`d`), its role is the first path clear of `obstacles` toward
/// its focus target, or none when every path is blocked.
pub open spec fn heads_by_focus(
    ai: AiControlled,
    pos: Vec2i,
    obstacles: Seq<Vec2i>,
    carrier: Option<ActorWithBall>,
    enemy_goal: Vec2i,
    own_goal: Vec2i,
    arena: Arena,
    role: Option<AiRole>,
) -> bool {
    exists|pick: bool, d: FocusDraws|
        #![trigger focus_for(ai, team_intent(carrier), pick), draws_in_range(d)]
        {
            let focus = focus_for(ai, team_intent(carrier), pick);
            &&& draws_in_range(d)
            &&& (focus == AiFocus::MoveOnWings ==> wing_band(arena, pos.y as int).0 <= d.wing_y < wing_band(
                arena,
                pos.y as int,
            ).1)
            &&& role == path_role(
                first_clear(
                    pos,
                    bearing(pos, focus_target(focus, pos, carrier, enemy_goal, own_goal, d)),
                    obstacles,
                    0,
                ),
            )
        }
}

proof fn lemma_heads_same_foci(
    ai1: AiControlled,
    ai2: AiControlled,
    pos: Vec2i,
    obstacles: Seq<Vec2i>,
    carrier: Option<ActorWithBall>,
    enemy_goal: Vec2i,
    own_goal: Vec2i,
    arena: Arena,
    role: Option<AiRole>,
)
    requires
        heads_by_focus(ai1, pos, obstacles, carrier, enemy_goal, own_goal, arena, role),
        ai1.offense_focus == ai2.offense_focus,
        ai1.defense_focus == ai2.defense_focus,
    ensures
        heads_by_focus(ai2, pos, obstacles, carrier, enemy_goal, own_goal, arena, role),
{
    let (pick, d) = choose|pick: bool, d: FocusDraws|
        #![trigger focus_for(ai1, team_intent(carrier), pick), draws_in_range(d)]
        {
            let focus = focus_for(ai1, team_intent(carrier), pick);
            &&& draws_in_range(d)
            &&& (focus == AiFocus::MoveOnWings ==> wing_band(arena, pos.y as int).0 <= d.wing_y < wing_band(
                arena,
                pos.y as int,
            ).1)
            &&& role == path_role(
                first_clear(
                    pos,
                    bearing(pos, focus_target(focus, pos, carrier, enemy_goal, own_goal, d)),
                    obstacles,
                    0,
                ),
            )
        };
    assert(focus_for(ai1, team_intent(carrier), pick) == focus_for(ai2, team_intent(carrier), pick));
    assert(draws_in_range(d));
}

proof fn lemma_opponents_same(r1: Seq<ActorRecord>, r2: Seq<ActorRecord>, team: Team)
    requires
        r1.len() == r2.len(),
        forall|j: int|
            0 <= j < r1.len() ==> (#[trigger] r1[j]).team == r2[j].team && r1[j].position == r2[j].position,
    ensures
        opponent_positions(r1, team) == opponent_positions(r2, team),
    decreases r1.len(),
{
    if r1.len() > 0 {
        let p1 = r1.drop_last();
        let p2 = r2.drop_last();
        assert forall|j: int| 0 <= j < p1.len() implies (#[trigger] p1[j]).team == p2[j].team && p1[j].position
            == p2[j].position by {
            assert(p1[j] == r1[j] && p2[j] == r2[j]);
        }
        lemma_opponents_same(p1, p2, team);
        assert(r1.last() == r1[r1.len() - 1]);
    }
}

proof fn lemma_pursuit_target_of(r: Seq<ActorRecord>, b: Vec2i, a: int, p: int)
    requires
        is_first_closest(r, b, a, true),
        is_first_closest(r, b, p, false),
    ensures
        pursuit_target(r, b) == match pursuit(r[a].position, b, dist_sq(r[p].position, b)) {
            Some((t, _)) => Some((a, t)),
            None => None,
        },
        chase_carrier(r, b) == match pursuit(r[a].position, b, dist_sq(r[p].position, b)) {
            Some((_, true)) => Some(
                ActorWithBall { entity: a as ActorId, is_ai: true, position: r[a].position, target_position: Some(b) },
            ),
            _ => None,
        },
{
    let (a2, p2) = choose|a2: int, p2: int|
        #![trigger is_first_closest(r, b, a2, true), is_first_closest(r, b, p2, false)]
        is_first_closest(r, b, a2, true) && is_first_closest(r, b, p2, false);
    lemma_first_closest_unique(r, b, a, a2, true);
    lemma_first_closest_unique(r, b, p, p2, false);
}

/// Two rosters whose actors stand at the same places, on the same sides of
/// control, chase a loose ball alike.
proof fn lemma_chase_same(r1: Seq<ActorRecord>, r2: Seq<ActorRecord>, b: Vec2i)
    requires
        r1.len() == r2.len(),
        forall|j: int|
            0 <= j < r1.len() ==> ((#[trigger] r1[j]).ai is Some) == (r2[j].ai is Some) && r1[j].position
                == r2[j].position,
    ensures
        pursuit_target(r1, b) == pursuit_target(r2, b),
        chase_carrier(r1, b) == chase_carrier(r2, b),
{
    assert forall|i: int, side: bool|
        is_first_closest(r1, b, i, side) == #[trigger] is_first_closest(r2, b, i, side) by {
        lemma_first_closest_transfer(r1, r2, b, i, side);
    }
    if exists|a: int, p: int|
        #![trigger is_first_closest(r2, b, a, true), is_first_closest(r2, b, p, false)]
        is_first_closest(r2, b, a, true) && is_first_closest(r2, b, p, false) {
        let (a, p) = choose|a: int, p: int|
            #![trigger is_first_closest(r2, b, a, true), is_first_closest(r2, b, p, false)]
            is_first_closest(r2, b, a, true) && is_first_closest(r2, b, p, false);
        lemma_pursuit_target_of(r2, b, a, p);
        assert(is_first_closest(r1, b, a, true));
        assert(is_first_closest(r1, b, p, false));
        lemma_pursuit_target_of(r1, b, a, p);
    } else {
        assert forall|a: int, p: int|
            #![trigger is_first_closest(r1, b, a, true), is_first_closest(r1, b, p, false)]
            is_first_closest(r1, b, a, true) implies !is_first_closest(r1, b, p, false) by {
            assert(is_first_closest(r2, b, a, true));
            if is_first_closest(r1, b, p, false) {
                assert(is_first_closest(r2, b, p, false));
            }
        }
    }
}

/// The computer's actor nearest to a loose `ball` pursues it (see `pursuit`);
/// returns it with its target, and it as the ball carrier if it expects to
/// take the ball. Only that actor's role changes.
fn pursue_loose_ball(roster: &mut Vec<ActorRecord>, b: Vec2i) -> (r: (Option<(usize, Vec2i)>, Option<ActorWithBall>))
    requires
        roster_wf(old(roster)@),
        b.in_world(),
    ensures
        final(roster)@.len() == old(roster)@.len(),
        forall|j: int| 0 <= j < old(roster)@.len() ==> roles_only(old(roster)@[j], #[trigger] final(roster)@[j]),
        pursuit_target(old(roster)@, b) == match r.0 {
            Some((a, t)) => Some((a as int, t)),
            None => None,
        },
        r.0 matches Some((a, t)) ==> a < final(roster)@.len() && final(roster)@[a as int].ai.unwrap().role == Some(
            AiRole::Move { x: t.x, y: t.y },
        ),
        forall|j: int|
            0 <= j < old(roster)@.len() && (r.0 matches Some((a, _)) ==> j != a) ==> #[trigger] final(roster)@[j]
                == old(roster)@[j],
        r.1 matches Some(bc) ==> bc.is_ai && (bc.target_position matches Some(tp) ==> tp.near_world()),
        r.1 == chase_carrier(old(roster)@, b),
{
    let ghost fresh = roster@;
    let n = roster.len();
    match get_closest_from_query(b, roster) {
        Some((a, p)) => {
            assert(roster@[p as int].wf());
            let pl_sq = distance_squared(roster[p].position, b);
            assert(roster@[a as int].wf());
            let res = pursue_ball(roster[a].position, b, pl_sq);
            proof {
                assert forall|a2: int, p2: int|
                    #![trigger is_first_closest(fresh, b, a2, true), is_first_closest(fresh, b, p2, false)]
                    is_first_closest(fresh, b, a2, true) && is_first_closest(fresh, b, p2, false) implies a2 == a
                        && p2 == p by {
                    lemma_first_closest_unique(fresh, b, a2, a as int, true);
                    lemma_first_closest_unique(fresh, b, p2, p as int, false);
                }
                lemma_pursuit_target_of(fresh, b, a as int, p as int);
            }
            match res {
                Some((t, takes)) => {
                    let position = roster[a].position;
                    set_role(roster, a, Some(AiRole::Move { x: t.x, y: t.y }));
                    let carrier = if takes {
                        Some(ActorWithBall { entity: a, is_ai: true, position, target_position: Some(b) })
                    } else {
                        None
                    };
                    (Some((a, t)), carrier)
                },
                None => (None, None),
            }
        },
        None => {
            proof {
                assert forall|a2: int, p2: int|
                    #![trigger is_first_closest(fresh, b, a2, true), is_first_closest(fresh, b, p2, false)]
                    is_first_closest(fresh, b, a2, true) implies !is_first_closest(fresh, b, p2, false) by {}
            }
            (None, None)
        },
    }
}

/// Each computer's actor without a role, other than the holder of the ball,
/// gets one: in roster order, each heads where its focus says (with random
/// values drawn where the focus needs them), along the first path clear of
/// the opponents' guard discs. Roles already given stay.
fn plan_roles(
    roster: &mut Vec<ActorRecord>,
    holder: Option<ActorId>,
    carrier: Option<ActorWithBall>,
    enemy_goal: Vec2i,
    own_goal: Vec2i,
    arena: Arena,
)
    requires
        roster_wf(old(roster)@),
        carrier matches Some(bc) ==> (bc.target_position matches Some(tp) ==> tp.near_world()),
        -WORLD_LIMIT <= arena.top <= WORLD_LIMIT,
        -WORLD_LIMIT <= arena.bottom <= WORLD_LIMIT,
    ensures
        final(roster)@.len() == old(roster)@.len(),
        forall|j: int| 0 <= j < old(roster)@.len() ==> roles_only(old(roster)@[j], #[trigger] final(roster)@[j]),
        forall|j: int|
            0 <= j < old(roster)@.len() && (old(roster)@[j].ai is None || old(roster)@[j].ai.unwrap().role is Some
                || holder == Some(j as ActorId)) ==> #[trigger] final(roster)@[j] == old(roster)@[j],
        forall|j: int|
            0 <= j < old(roster)@.len() && old(roster)@[j].ai is Some && old(roster)@[j].ai.unwrap().role is None
                && holder != Some(j as ActorId) ==> heads_by_focus(
                old(roster)@[j].ai.unwrap(),
                old(roster)@[j].position,
                opponent_positions(old(roster)@, old(roster)@[j].team),
                carrier,
                enemy_goal,
                own_goal,
                arena,
                (#[trigger] final(roster)@[j]).ai.unwrap().role,
            ),
{
    let n = roster.len();
    let intent = get_ai_team_intent(carrier);
    let mut i: usize = 0;
    while i < n
        invariant
            n == old(roster)@.len(),
            roster@.len() == n,
            0 <= i <= n,
            intent == team_intent(carrier),
            forall|j: int| 0 <= j < n ==> roles_only(old(roster)@[j], #[trigger] roster@[j]),
            forall|j: int| 0 <= j < n ==> (#[trigger] old(roster)@[j]).wf(),
            forall|j: int| i <= j < n ==> #[trigger] roster@[j] == old(roster)@[j],
            forall|j: int|
                0 <= j < i && (old(roster)@[j].ai is None || old(roster)@[j].ai.unwrap().role is Some
                    || holder == Some(j as ActorId)) ==> #[trigger] roster@[j] == old(roster)@[j],
            forall|j: int|
                0 <= j < i && old(roster)@[j].ai is Some && old(roster)@[j].ai.unwrap().role is None
                    && holder != Some(j as ActorId) ==> heads_by_focus(
                    old(roster)@[j].ai.unwrap(),
                    old(roster)@[j].position,
                    opponent_positions(old(roster)@, old(roster)@[j].team),
                    carrier,
                    enemy_goal,
                    own_goal,
                    arena,
                    (#[trigger] roster@[j]).ai.unwrap().role,
                ),
            (carrier matches Some(bc) ==> (bc.target_position matches Some(tp) ==> tp.near_world())),
            -WORLD_LIMIT <= arena.top <= WORLD_LIMIT,
            -WORLD_LIMIT <= arena.bottom <= WORLD_LIMIT,
        decreases n - i,
    {
        if let Some(ai) = roster[i].ai {
            if ai.role.is_none() && holder != Some(i) {
                let ghost before = roster@;
                let me = roster[i].position;
                let focus = ai.get_focus(&intent);
                let draws = draw_for(focus, arena, me.y);
                assert(old(roster)@[i as int].wf());
                let target = get_focus_target(focus, me, carrier, enemy_goal, own_goal, draws);
                proof {
                    assert forall|j: int| 0 <= j < n implies (#[trigger] roster@[j]).wf() by {
                        assert(roles_only(old(roster)@[j], roster@[j]));
                    }
                    assert forall|j: int| 0 <= j < n implies (#[trigger] roster@[j]).team == old(roster)@[j].team
                        && roster@[j].position == old(roster)@[j].position by {
                        assert(roles_only(old(roster)@[j], roster@[j]));
                    }
                    lemma_opponents_same(roster@, old(roster)@, roster@[i as int].team);
                }
                let obstacles = opponents_of(roster, roster[i].team);
                let path = choose_direction(me, target, &obstacles);
                if let Some(e) = path {
                    set_role(roster, i, Some(AiRole::Move { x: e.x, y: e.y }));
                }
                proof {
                    let pick = if intent == AiTeamIntent::Undecided {
                        focus == ai.offense_focus
                    } else {
                        true
                    };
                    assert(focus_for(ai, team_intent(carrier), pick) == focus);
                    assert(draws_in_range(draws));
                    assert(roster@[i as int].ai.unwrap().role == path_role(path));
                    assert(heads_by_focus(
                        ai,
                        me,
                        opponent_positions(old(roster)@, old(roster)@[i as int].team),
                        carrier,
                        enemy_goal,
                        own_goal,
                        arena,
                        roster@[i as int].ai.unwrap().role,
                    ));
                    assert forall|j: int| 0 <= j < n && j != i implies #[trigger] roster@[j] == before[j] by {}
                }
            }
        }
        i += 1;
    }
}

/// Every role becomes a run, ordered as the player's orders are.
fn apply_roles(roster: &mut Vec<ActorRecord>)
    ensures
        final(roster)@.len() == old(roster)@.len(),
        forall|j: int|
            0 <= j < old(roster)@.len() ==> #[trigger] final(roster)@[j] == match old(roster)@[j].ai {
                Some(c) => match c.role {
                    Some(AiRole::Move { x, y }) => ActorRecord {
                        actor: ordered(old(roster)@[j].actor, ActorAction::Running { x, y }),
                        ..old(roster)@[j]
                    },
                    _ => old(roster)@[j],
                },
                None => old(roster)@[j],
            },
{
    let n = roster.len();
    let mut i: usize = 0;
    while i < n
        invariant
            n == old(roster)@.len(),
            roster@.len() == n,
            0 <= i <= n,
            forall|j: int|
                0 <= j < i ==> #[trigger] roster@[j] == match old(roster)@[j].ai {
                    Some(c) => match c.role {
                        Some(AiRole::Move { x, y }) => ActorRecord {
                            actor: ordered(old(roster)@[j].actor, ActorAction::Running { x, y }),
                            ..old(roster)@[j]
                        },
                        _ => old(roster)@[j],
                    },
                    None => old(roster)@[j],
                },
            forall|j: int| i <= j < n ==> #[trigger] roster@[j] == old(roster)@[j],
        decreases n - i,
    {
        if let Some(ai) = roster[i].ai {
            if let Some(AiRole::Move { x, y }) = ai.role {
                give_order(&mut roster[i].actor, ActorAction::Running { x, y });
            }
        }
        i += 1;
    }
}

proof fn lemma_same_places(r1: Seq<ActorRecord>, r2: Seq<ActorRecord>, holder: Option<ActorId>, ball: Option<Vec2i>, enemy_goal: Vec2i)
    requires
        r1.len() == r2.len(),
        forall|j: int| 0 <= j < r1.len() ==> roles_only(r1[j], #[trigger] r2[j]),
    ensures
        forall|t: Team| #[trigger] opponent_positions(r1, t) == opponent_positions(r2, t),
        forall|h: int| 0 <= h < r1.len() ==> #[trigger] holder_path(r1, h, enemy_goal) == holder_path(r2, h, enemy_goal),
        ball matches Some(b) ==> pursuit_target(r1, b) == pursuit_target(r2, b),
        tick_carrier(r1, holder, ball) == tick_carrier(r2, holder, ball),
        forall|c: Option<ActorWithBall>| #[trigger] with_holder_path(r1, holder, c, enemy_goal) == with_holder_path(r2, holder, c, enemy_goal),
{
    assert forall|j: int| 0 <= j < r1.len() implies (#[trigger] r1[j]).team == r2[j].team && r1[j].position
        == r2[j].position && (r1[j].ai is Some) == (r2[j].ai is Some) by {
        assert(roles_only(r1[j], r2[j]));
    }
    assert forall|t: Team| #[trigger] opponent_positions(r1, t) == opponent_positions(r2, t) by {
        lemma_opponents_same(r1, r2, t);
    }
    if let Some(b) = ball {
        lemma_chase_same(r1, r2, b);
    }
    assert forall|h: int| 0 <= h < r1.len() implies #[trigger] holder_path(r1, h, enemy_goal) == holder_path(
        r2,
        h,
        enemy_goal,
    ) by {
        assert(opponent_positions(r1, r1[h].team) == opponent_positions(r2, r2[h].team));
    }
    assert forall|c: Option<ActorWithBall>| #[trigger] with_holder_path(r1, holder, c, enemy_goal) == with_holder_path(
        r2,
        holder,
        c,
        enemy_goal,
    ) by {
        if let Some(bc) = c {
            if bc.entity < r1.len() {
                assert(holder_path(r1, bc.entity as int, enemy_goal) == holder_path(r2, bc.entity as int, enemy_goal));
            }
        }
    }
}

/// Works out the tick's carrier on a roster without roles: the holder, or the
/// chaser of a loose ball, whose role is then set.
fn find_carrier(roster: &mut Vec<ActorRecord>, holder: Option<ActorId>, ball: Option<Vec2i>) -> (r: (
    Option<(usize, Vec2i)>,
    Option<ActorWithBall>,
))
    requires
        roster_wf(old(roster)@),
        ball matches Some(b) ==> b.in_world(),
    ensures
        final(roster)@.len() == old(roster)@.len(),
        forall|j: int| 0 <= j < old(roster)@.len() ==> roles_only(old(roster)@[j], #[trigger] final(roster)@[j]),
        r.1 == tick_carrier(old(roster)@, holder, ball),
        r.1 matches Some(bc) ==> (bc.target_position matches Some(tp) ==> tp.near_world()),
        r.1 matches Some(bc) ==> (bc.is_ai && holder == Some(bc.entity) ==> bc.entity < old(roster)@.len()
            && old(roster)@[bc.entity as int].ai is Some),
        r.0 matches Some((a, t)) ==> is_chaser(old(roster)@, holder, ball, a as int) && a < old(roster)@.len()
            && final(roster)@[a as int].ai.unwrap().role == Some(AiRole::Move { x: t.x, y: t.y }),
        forall|j: int|
            0 <= j < old(roster)@.len() && !is_chaser(old(roster)@, holder, ball, j) ==> #[trigger] final(roster)@[j]
                == old(roster)@[j],
        (holder is None && ball is Some) ==> pursuit_target(old(roster)@, ball.unwrap()) == match r.0 {
            Some((a, t)) => Some((a as int, t)),
            None => None,
        },
        !(holder is None && ball is Some) ==> r.0 is None,
{
    let n = roster.len();
    match holder {
        Some(h) => {
            if h < n {
                (
                    None,
                    Some(
                        ActorWithBall {
                            entity: h,
                            is_ai: roster[h].ai.is_some(),
                            position: roster[h].position,
                            target_position: None,
                        },
                    ),
                )
            } else {
                (None, None)
            }
        },
        None => {
            if let Some(b) = ball {
                let (p, c) = pursue_loose_ball(roster, b);
                (p, c)
            } else {
                (None, None)
            }
        },
    }
}

/// A computer's holder of the ball, without a role yet, heads for the
/// opponent's goal along the first clear path; returns the carrier with that
/// path's end as its target.
fn head_holder(roster: &mut Vec<ActorRecord>, holder: Option<ActorId>, carrier: Option<ActorWithBall>, enemy_goal: Vec2i) -> (r: Option<ActorWithBall>)
    requires
        roster_wf(old(roster)@),
        carrier matches Some(bc) ==> (bc.target_position matches Some(tp) ==> tp.near_world()),
        carrier matches Some(bc) ==> (bc.is_ai && holder == Some(bc.entity) ==> bc.entity < old(roster)@.len()
            && old(roster)@[bc.entity as int].ai is Some && old(roster)@[bc.entity as int].ai.unwrap().role is None),
    ensures
        final(roster)@.len() == old(roster)@.len(),
        forall|j: int| 0 <= j < old(roster)@.len() ==> roles_only(old(roster)@[j], #[trigger] final(roster)@[j]),
        r == with_holder_path(old(roster)@, holder, carrier, enemy_goal),
        r matches Some(bc) ==> (bc.target_position matches Some(tp) ==> tp.near_world()),
        forall|j: int| 0 <= j < old(roster)@.len() && holder != Some(j as ActorId) ==> #[trigger] final(roster)@[j] == old(roster)@[j],
        holder matches Some(h) ==> (h < old(roster)@.len() && (carrier matches Some(bc) && bc.is_ai && bc.entity == h)
            ==> final(roster)@[h as int].ai.unwrap().role == path_role(holder_path(old(roster)@, h as int, enemy_goal))),
{
    let ghost start = roster@;
    if let Some(bc) = carrier {
        if bc.is_ai && holder == Some(bc.entity) {
            let h = bc.entity;
            assert(roster@[h as int].wf());
            let me = roster[h].position;
            let obstacles = opponents_of(roster, roster[h].team);
            let path = choose_direction(me, enemy_goal, &obstacles);
            if let Some(e) = path {
                set_role(roster, h, Some(AiRole::Move { x: e.x, y: e.y }));
                assert forall|j: int| 0 <= j < start.len() && j != h implies #[trigger] roster@[j] == start[j] by {}
                return Some(ActorWithBall { target_position: Some(e), ..bc });
            }
            return carrier;
        }
    }
    carrier
}

/// One tick of decisions for the computer's actors.
///
/// Roles are worked out afresh. If the ball is loose, the computer's actor
/// nearest to it pursues it (see `pursuit`); one that will reach it first is
/// taken as the ball carrier. Otherwise the holder, if any, is the carrier
/// (see `tick_carrier`). The team leans to offense or defense by who carries
/// the ball. A computer's holder heads for the opponent's goal along the first
/// clear path (see `holder_path`); then each other computer's actor heads where
/// its focus says (see `heads_by_focus`, with random values drawn where the
/// focus needs them), along the first path clear of the opponents' guard discs
/// (see `choose_direction`). An actor whose every path is blocked gets no role.
/// Every role becomes a run, ordered as the player's orders are.
#[verifier::rlimit(100)]
pub fn process_ai(
    roster: &mut Vec<ActorRecord>,
    possession: &BallPossession,
    ball: Option<Vec2i>,
    enemy_goal: Vec2i,
    own_goal: Vec2i,
    arena: Arena,
)
    requires
        roster_wf(old(roster)@),
        ball matches Some(b) ==> b.in_world(),
        -WORLD_LIMIT <= arena.top <= WORLD_LIMIT,
        -WORLD_LIMIT <= arena.bottom <= WORLD_LIMIT,
    ensures
        final(roster)@.len() == old(roster)@.len(),
        roster_wf(final(roster)@),
        forall|i: int| 0 <= i < old(roster)@.len() ==> planned(old(roster)@[i], #[trigger] final(roster)@[i]),
        possession@ is None ==> (ball matches Some(b) ==> (pursuit_target(old(roster)@, b) matches Some(
            (a, t),
        ) ==> final(roster)@[a].ai.unwrap().role == Some(AiRole::Move { x: t.x, y: t.y }))),
        possession@ matches Some(h) ==> (h < old(roster)@.len() && old(roster)@[h as int].ai is Some
            ==> final(roster)@[h as int].ai.unwrap().role == path_role(
            holder_path(old(roster)@, h as int, enemy_goal),
        )),
        forall|i: int|
            0 <= i < old(roster)@.len() && old(roster)@[i].ai is Some && possession@ != Some(i as ActorId)
                && !is_chaser(old(roster)@, possession@, ball, i) ==> heads_by_focus(
                old(roster)@[i].ai.unwrap(),
                old(roster)@[i].position,
                opponent_positions(old(roster)@, old(roster)@[i].team),
                heading_carrier(old(roster)@, possession@, ball, enemy_goal),
                enemy_goal,
                own_goal,
                arena,
                (#[trigger] final(roster)@[i]).ai.unwrap().role,
            ),
{
    let n = roster.len();
    reset_ai_roles(roster);
    let ghost fresh = roster@;
    assert forall|j: int| 0 <= j < n implies roles_only(old(roster)@[j], #[trigger] fresh[j]) && fresh[j].wf()
        && (fresh[j].ai matches Some(c) ==> c.role is None) by {
        assert(old(roster)@[j].wf());
    }
    proof {
        lemma_same_places(old(roster)@, fresh, possession@, ball, enemy_goal);
    }
    let holder = possession.get();
    let (pursuer, carrier) = find_carrier(roster, holder, ball);
    let ghost chased = roster@;
    assert forall|j: int| 0 <= j < n implies roles_only(old(roster)@[j], #[trigger] chased[j]) && chased[j].wf() by {
        assert(roles_only(fresh[j], chased[j]));
        assert(old(roster)@[j].wf());
    }
    proof {
        lemma_same_places(old(roster)@, chased, holder, ball, enemy_goal);
        if let Some(bc) = carrier {
            if bc.is_ai && holder == Some(bc.entity) {
                assert(!is_chaser(fresh, holder, ball, bc.entity as int));
                assert(chased[bc.entity as int] == fresh[bc.entity as int]);
            }
        }
    }
    let carrier = head_holder(roster, holder, carrier, enemy_goal);
    let ghost headed = roster@;
    assert forall|j: int| 0 <= j < n implies roles_only(old(roster)@[j], #[trigger] headed[j]) && headed[j].wf() by {
        assert(roles_only(chased[j], headed[j]));
        assert(old(roster)@[j].wf());
    }
    proof {
        lemma_same_places(old(roster)@, headed, holder, ball, enemy_goal);
    }
    plan_roles(roster, holder, carrier, enemy_goal, own_goal, arena);
    let ghost roled = roster@;
    assert forall|j: int| 0 <= j < n implies roles_only(old(roster)@[j], #[trigger] roled[j]) by {
        assert(roles_only(headed[j], roled[j]));
    }
    apply_roles(roster);
    proof {
        assert forall|j: int| 0 <= j < n implies planned(old(roster)@[j], #[trigger] roster@[j]) && roster@[j].wf() by {
            assert(roles_only(old(roster)@[j], roled[j]));
            assert(old(roster)@[j].wf());
        }
        if let Some((a, t)) = pursuer {
            assert(headed[a as int] == chased[a as int]);
            assert(roled[a as int] == headed[a as int]);
        }
        if let Some(h) = holder {
            if h < n && old(roster)@[h as int].ai is Some {
                assert(roled[h as int] == headed[h as int]);
                assert(roster@[h as int].ai == roled[h as int].ai);
            }
        }
        assert forall|i: int|
            0 <= i < n && old(roster)@[i].ai is Some && holder != Some(i as ActorId) && !is_chaser(
                old(roster)@,
                holder,
                ball,
                i,
            ) implies heads_by_focus(
            old(roster)@[i].ai.unwrap(),
            old(roster)@[i].position,
            opponent_positions(old(roster)@, old(roster)@[i].team),
            heading_carrier(old(roster)@, holder, ball, enemy_goal),
            enemy_goal,
            own_goal,
            arena,
            (#[trigger] roster@[i]).ai.unwrap().role,
        ) by {
            assert(!is_chaser(fresh, holder, ball, i));
            assert(headed[i] == fresh[i]);
            assert(roles_only(headed[i], roled[i]));
            assert(roster@[i].ai == roled[i].ai);
            lemma_heads_same_foci(
                headed[i].ai.unwrap(),
                old(roster)@[i].ai.unwrap(),
                old(roster)@[i].position,
                opponent_positions(old(roster)@, old(roster)@[i].team),
                carrier,
                enemy_goal,
                own_goal,
                arena,
                roled[i].ai.unwrap().role,
            );
        }
    }
}

/// Takes every computer-controlled actor's role away, at the end of a round.
pub fn reset_ai_roles(roster: &mut Vec<ActorRecord>)
    ensures
        final(roster)@.len() == old(roster)@.len(),
        forall|i: int|
            0 <= i < old(roster)@.len() ==> #[trigger] final(roster)@[i] == match old(roster)@[i].ai {
                None => old(roster)@[i],
                Some(a) => ActorRecord { ai: Some(AiControlled { role: None, ..a }), ..old(roster)@[i] },
            },
{
    let n = roster.len();
    let mut i: usize = 0;
    while i < n
        invariant
            n == old(roster)@.len(),
            roster@.len() == n,
            0 <= i <= n,
            forall|j: int|
                0 <= j < i ==> #[trigger] roster@[j] == match old(roster)@[j].ai {
                    None => old(roster)@[j],
                    Some(a) => ActorRecord { ai: Some(AiControlled { role: None, ..a }), ..old(roster)@[j] },
                },
            forall|j: int| i <= j < n ==> #[trigger] roster@[j] == old(roster)@[j],
        decreases n - i,
    {
        if roster[i].ai.is_some() {
            set_role(roster, i, None);
        }
        i += 1;
    }
}

} // verus!
