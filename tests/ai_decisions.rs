use lobda::actor::{ActorAction, ActorRecord};
use lobda::ai::{
    choose_direction, choose_focus, get_free_vector, get_ai_team_intent, get_closest_from_query, get_focus_target, process_ai,
    pursue_ball, reset_ai_roles, ActorWithBall, AiControlled, AiFocus, AiRole, AiTeamIntent, Arena, FocusDraws,
};
use lobda::ball::BallPossession;
use lobda::geometry::Vec2i;
use lobda::team::Team;

fn human(x: i32, y: i32, team: Team) -> ActorRecord {
    ActorRecord::new(team, Vec2i::new(x, y), None)
}

fn computer(x: i32, y: i32, team: Team, offense: AiFocus, defense: AiFocus) -> ActorRecord {
    ActorRecord::new(team, Vec2i::new(x, y), Some(AiControlled::new(offense, defense)))
}

#[test]
fn straight_path_when_nothing_blocks() {
    let r = choose_direction(Vec2i::new(0, 0), Vec2i::new(300, 0), &vec![]);
    assert_eq!(r, Some(Vec2i::new(100, 0)));
}

#[test]
fn path_turns_by_smallest_clear_angle() {
    // an opponent's guard disc sits on the straight line; turns up to six
    // tenths of a radian still touch it, seven clear it
    let r = choose_direction(Vec2i::new(0, 0), Vec2i::new(300, 0), &vec![Vec2i::new(100, 0)]);
    assert_eq!(r, Some(Vec2i::new(76, 64)));
}

#[test]
fn boxed_in_actor_does_not_move() {
    let obstacles = vec![Vec2i::new(50, 0), Vec2i::new(0, 50), Vec2i::new(0, -50), Vec2i::new(-50, 0)];
    assert_eq!(choose_direction(Vec2i::new(0, 0), Vec2i::new(300, 0), &obstacles), None);
}

#[test]
fn closest_of_each_side() {
    let roster = vec![
        computer(100, 0, Team::Away, AiFocus::Score, AiFocus::DefendGoalPost),
        human(30, 0, Team::Home),
        computer(40, 0, Team::Away, AiFocus::Score, AiFocus::DefendGoalPost),
        human(-20, 0, Team::Home),
    ];
    assert_eq!(get_closest_from_query(Vec2i::new(0, 0), &roster), Some((2, 3)));
    assert_eq!(get_closest_from_query(Vec2i::new(0, 0), &vec![human(0, 0, Team::Home)]), None);
}

#[test]
fn nearer_computer_runs_for_the_ball() {
    assert_eq!(pursue_ball(Vec2i::new(0, 0), Vec2i::new(100, 0), 200 * 200), Some((Vec2i::new(100, 0), true)));
}

#[test]
fn computer_within_guard_margin_intercepts() {
    // 100 away against the player's 80: within the margin of fifty
    assert_eq!(pursue_ball(Vec2i::new(0, 0), Vec2i::new(100, 0), 80 * 80), Some((Vec2i::new(50, 0), false)));
    // 200 away against 80: too far
    assert_eq!(pursue_ball(Vec2i::new(0, 0), Vec2i::new(200, 0), 80 * 80), None);
}

#[test]
fn intent_follows_the_carrier() {
    let ai = ActorWithBall { entity: 0, is_ai: true, position: Vec2i::new(0, 0), target_position: None };
    let pl = ActorWithBall { is_ai: false, ..ai };
    assert_eq!(get_ai_team_intent(Some(ai)), AiTeamIntent::Offense);
    assert_eq!(get_ai_team_intent(Some(pl)), AiTeamIntent::Defense);
    assert_eq!(get_ai_team_intent(None), AiTeamIntent::Undecided);
}

#[test]
fn focus_by_intent() {
    let ai = AiControlled::new(AiFocus::MoveOnWings, AiFocus::DefendGoalPost);
    assert_eq!(choose_focus(&ai, AiTeamIntent::Offense, false), AiFocus::MoveOnWings);
    assert_eq!(choose_focus(&ai, AiTeamIntent::Defense, true), AiFocus::DefendGoalPost);
    assert_eq!(choose_focus(&ai, AiTeamIntent::Undecided, true), AiFocus::MoveOnWings);
    assert_eq!(choose_focus(&ai, AiTeamIntent::Undecided, false), AiFocus::DefendGoalPost);
    assert_eq!(ai.get_focus(&AiTeamIntent::Defense), AiFocus::DefendGoalPost);
}

#[test]
fn undecided_focus_draws_both_ways() {
    let ai = AiControlled::new(AiFocus::MoveOnWings, AiFocus::DefendGoalPost);
    let mut offense = 0;
    let mut defense = 0;
    for _ in 0..200 {
        match ai.get_focus(&AiTeamIntent::Undecided) {
            AiFocus::MoveOnWings => offense += 1,
            AiFocus::DefendGoalPost => defense += 1,
            other => panic!("unexpected focus {:?}", other),
        }
    }
    assert!(offense > 0 && defense > 0);
}

#[test]
fn focus_targets() {
    let enemy = Vec2i::new(390, 0);
    let own = Vec2i::new(-390, 0);
    let me = Vec2i::new(0, 200);
    let draws = FocusDraws { wing_y: 250, guard_dx: 10, guard_dy: 40 };
    assert_eq!(get_focus_target(AiFocus::Score, me, None, enemy, own, draws), enemy);
    assert_eq!(get_focus_target(AiFocus::DefendGoalPost, me, None, enemy, own, draws), own);
    assert_eq!(get_focus_target(AiFocus::StayForward, me, None, enemy, own, draws), enemy);
    assert_eq!(get_focus_target(AiFocus::MoveOnWings, me, None, enemy, own, draws), Vec2i::new(100, 250));
    let carrier = ActorWithBall {
        entity: 1,
        is_ai: true,
        position: Vec2i::new(50, 0),
        target_position: Some(Vec2i::new(150, 100)),
    };
    assert_eq!(
        get_focus_target(AiFocus::GuardBallCarrier, me, Some(carrier), enemy, own, draws),
        Vec2i::new(140, 140)
    );
    let carrier = ActorWithBall { target_position: None, ..carrier };
    assert_eq!(get_focus_target(AiFocus::GuardBallCarrier, me, Some(carrier), enemy, own, draws), Vec2i::new(50, 0));
    assert_eq!(get_focus_target(AiFocus::GuardBallCarrier, me, None, enemy, own, draws), enemy);
}

#[test]
fn computer_holder_steers_around_guard() {
    let mut roster = vec![
        computer(0, 0, Team::Away, AiFocus::StayForward, AiFocus::DefendGoalPost),
        human(100, 0, Team::Home),
    ];
    let mut possession = BallPossession::new();
    possession.set(0);
    let arena = Arena { top: 280, bottom: -280 };
    process_ai(&mut roster, &possession, None, Vec2i::new(300, 0), Vec2i::new(-300, 0), arena);
    assert_eq!(roster[0].ai.unwrap().role, Some(AiRole::Move { x: 76, y: 64 }));
    assert_eq!(roster[0].actor.act_action, ActorAction::Running { x: 76, y: 64 });
    assert_eq!(roster[1].actor.act_action, ActorAction::Lookout);
}

#[test]
fn nearest_computer_chases_loose_ball() {
    let mut roster = vec![
        computer(0, 0, Team::Away, AiFocus::Score, AiFocus::Score),
        human(300, 0, Team::Home),
        computer(-200, 0, Team::Away, AiFocus::DefendGoalPost, AiFocus::DefendGoalPost),
    ];
    let possession = BallPossession::new();
    let arena = Arena { top: 280, bottom: -280 };
    process_ai(&mut roster, &possession, Some(Vec2i::new(50, 0)), Vec2i::new(390, 0), Vec2i::new(-390, 0), arena);
    assert_eq!(roster[0].ai.unwrap().role, Some(AiRole::Move { x: 50, y: 0 }));
    assert_eq!(roster[0].actor.act_action, ActorAction::Running { x: 50, y: 0 });
    // the other heads back toward its own goal, a run's length
    assert_eq!(roster[2].ai.unwrap().role, Some(AiRole::Move { x: -300, y: 0 }));
    reset_ai_roles(&mut roster);
    assert_eq!(roster[0].ai.unwrap().role, None);
    assert_eq!(roster[1].ai, None);
}

#[test]
fn free_vector_only_when_no_disc_blocks() {
    let p = Vec2i::new(0, 0);
    let e = Vec2i::new(100, 0);
    assert_eq!(get_free_vector(p, e, &vec![Vec2i::new(50, 70)]), Some(e));
    assert_eq!(get_free_vector(p, e, &vec![Vec2i::new(50, 70), Vec2i::new(160, 0)]), None);
}

#[test]
fn boxed_in_computer_gets_no_role_and_stays() {
    let mut roster = vec![
        computer(0, 0, Team::Away, AiFocus::Score, AiFocus::Score),
        human(50, 0, Team::Home),
        human(0, 50, Team::Home),
        human(0, -50, Team::Home),
        human(-50, 0, Team::Home),
    ];
    let mut possession = BallPossession::new();
    possession.set(1);
    let arena = Arena { top: 280, bottom: -280 };
    process_ai(&mut roster, &possession, None, Vec2i::new(300, 0), Vec2i::new(-300, 0), arena);
    assert_eq!(roster[0].ai.unwrap().role, None);
    assert_eq!(roster[0].actor.act_action, ActorAction::Lookout);
}
