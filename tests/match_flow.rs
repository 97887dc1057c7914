use lobda::actor::{ActorAction, ActorRecord};
use lobda::ball::BallPossession;
use lobda::geometry::Vec2i;
use lobda::input::{
    handle_button_action, handle_right_click, ButtonAction, handle_keyboard_input, handle_keyboard_input_pre_round, handle_mouse_click, is_point_in_square,
    reset_control_mode, transform_pos_window_to_screen, ClickOutcome, ControlMode, CurrentControlMode,
};
use lobda::matchup::{are_actors_in_position, handle_matchup_events, move_actors_to_positions, Matchup, MatchupEvents};
use lobda::round::{start_timer, update_timer, RoundTimer};
use lobda::states::{next_phase, AppState, PhaseEvent};
use lobda::team::Team;

fn record_at(x: i32, y: i32, team: Team) -> ActorRecord {
    ActorRecord::new(team, Vec2i::new(x, y), None)
}

#[test]
fn phases_follow_the_round() {
    let mut s = AppState::Introduction;
    s = next_phase(s, PhaseEvent::Confirmed);
    assert_eq!(s, AppState::MovingToStartPosition);
    s = next_phase(s, PhaseEvent::ActorsInPosition);
    assert_eq!(s, AppState::Plan);
    assert_eq!(next_phase(s, PhaseEvent::GoalScored), AppState::Plan);
    s = next_phase(s, PhaseEvent::PlayOrdered);
    assert_eq!(s, AppState::Play);
    assert_eq!(next_phase(s, PhaseEvent::GoalScored), AppState::Scored);
    assert_eq!(next_phase(AppState::Scored, PhaseEvent::Confirmed), AppState::MovingToStartPosition);
}

#[test]
fn score_goes_to_the_attacking_side() {
    let mut m = Matchup::new(Vec2i::new(-100, 0), Vec2i::new(100, 0));
    let mut phase = AppState::Play;
    handle_matchup_events(&vec![MatchupEvents::Scored(Team::Home, 1)], &mut m, &mut phase);
    assert_eq!((m.score_home, m.score_away), (0, 1));
    assert_eq!(phase, AppState::Scored);
    assert_eq!(m.serving_side, Team::Home);
    assert_eq!(m.serve_position(), Vec2i::new(-100, 0));
}

#[test]
fn score_stops_at_its_largest_value() {
    let mut m = Matchup::new(Vec2i::new(-100, 0), Vec2i::new(100, 0));
    m.add_score(Team::Home, 250);
    m.add_score(Team::Home, 10);
    assert_eq!(m.score_home, 255);
    assert_eq!(m.score_away, 0);
}

#[test]
fn actors_move_to_start_and_settle() {
    let mut m = Matchup::new(Vec2i::new(-100, 0), Vec2i::new(100, 0));
    m.add_actors(vec![(0, Vec2i::new(-150, 0), Team::Home), (1, Vec2i::new(150, 0), Team::Away)]);
    let mut roster = vec![record_at(0, 0, Team::Home), record_at(0, 50, Team::Away)];
    let placed = move_actors_to_positions(&m, &mut roster);
    assert_eq!(placed, vec![(0, Vec2i::new(-150, 0)), (1, Vec2i::new(150, 0))]);
    assert_eq!(roster[0].actor.act_action, ActorAction::Running { x: -150, y: 0 });
    assert!(!are_actors_in_position(&m, &roster));
    roster[0].actor.set_action(ActorAction::Idle);
    roster[1].actor.set_action(ActorAction::Lookout);
    assert!(are_actors_in_position(&m, &roster));
}

#[test]
fn missing_actor_is_not_in_position() {
    let mut m = Matchup::new(Vec2i::new(-100, 0), Vec2i::new(100, 0));
    m.add_actors(vec![(4, Vec2i::new(-150, 0), Team::Home)]);
    let roster = vec![record_at(0, 0, Team::Home)];
    assert!(!are_actors_in_position(&m, &roster));
}

#[test]
fn round_clock_ends_play_once() {
    let mut timer = RoundTimer::new();
    let mut phase = AppState::Play;
    start_timer(&mut timer);
    assert!(!update_timer(&mut timer, 1500, &mut phase));
    assert_eq!(phase, AppState::Play);
    assert!(update_timer(&mut timer, 500, &mut phase));
    assert_eq!(phase, AppState::Plan);
    assert!(timer.clock.is_none());
    assert!(!update_timer(&mut timer, 500, &mut phase));
    assert_eq!(phase, AppState::Plan);
}

#[test]
fn keys_move_the_match_on() {
    assert_eq!(handle_keyboard_input_pre_round(AppState::Introduction, true), AppState::MovingToStartPosition);
    assert_eq!(handle_keyboard_input_pre_round(AppState::Introduction, false), AppState::Introduction);
    let mut phase = AppState::Plan;
    let mut mode = CurrentControlMode(ControlMode::Run);
    let mut possession = BallPossession::new();
    possession.set(0);
    handle_keyboard_input(&mut phase, &mut mode, false, true, Some(0), &possession);
    assert_eq!(mode.0, ControlMode::Throw);
    handle_keyboard_input(&mut phase, &mut mode, true, false, Some(0), &possession);
    assert_eq!(phase, AppState::Play);
    handle_keyboard_input(&mut phase, &mut mode, false, true, Some(1), &possession);
    assert_eq!(mode.0, ControlMode::Throw);
    reset_control_mode(&mut mode);
    assert_eq!(mode.0, ControlMode::Run);
}

#[test]
fn window_and_square_geometry() {
    assert_eq!(transform_pos_window_to_screen(Vec2i::new(400, 300)), Vec2i::new(0, 0));
    assert!(is_point_in_square(Vec2i::new(5, 5), Vec2i::new(0, 0), 16));
    assert!(!is_point_in_square(Vec2i::new(16, 0), Vec2i::new(0, 0), 16));
}

#[test]
fn click_selects_then_orders() {
    let mut roster = vec![record_at(0, 0, Team::Home), record_at(100, 0, Team::Away)];
    let mut selected = None;
    let mut mode = CurrentControlMode(ControlMode::Throw);
    let possession = BallPossession::new();
    let r = handle_mouse_click(&mut roster, &mut selected, &mut mode, &possession, Vec2i::new(3, -2));
    assert_eq!(r, ClickOutcome::Selected { actor: 0, has_ball: false });
    assert_eq!(selected, Some(0));
    assert_eq!(mode.0, ControlMode::Run);
    let r = handle_mouse_click(&mut roster, &mut selected, &mut mode, &possession, Vec2i::new(50, 60));
    assert_eq!(r, ClickOutcome::Ordered { actor: 0, action: ActorAction::Running { x: 50, y: 60 } });
    assert_eq!(roster[0].actor.act_action, ActorAction::Running { x: 50, y: 60 });
    let r = handle_mouse_click(&mut roster, &mut selected, &mut mode, &possession, Vec2i::new(50, 290));
    assert_eq!(r, ClickOutcome::Ignored);
}

#[test]
fn order_to_recovering_actor_is_queued() {
    let mut roster = vec![record_at(0, 0, Team::Home)];
    roster[0].actor.set_action(ActorAction::Recovering(300));
    let mut selected = Some(0);
    let mut mode = CurrentControlMode(ControlMode::Run);
    let possession = BallPossession::new();
    handle_mouse_click(&mut roster, &mut selected, &mut mode, &possession, Vec2i::new(50, 60));
    assert_eq!(roster[0].actor.act_action, ActorAction::Recovering(300));
    assert_eq!(roster[0].actor.queued_action, Some(ActorAction::Running { x: 50, y: 60 }));
}

#[test]
fn buttons_set_mode_and_start_play() {
    let mut mode = CurrentControlMode(ControlMode::Run);
    let mut phase = AppState::Plan;
    handle_button_action(ButtonAction::Throw, &mut mode, &mut phase);
    assert_eq!(mode.0, ControlMode::Throw);
    assert_eq!(phase, AppState::Plan);
    handle_button_action(ButtonAction::Play, &mut mode, &mut phase);
    assert_eq!(phase, AppState::Play);
}

#[test]
fn right_click_drops_selection() {
    let mut selected = Some(2);
    handle_right_click(&mut selected);
    assert_eq!(selected, None);
}
