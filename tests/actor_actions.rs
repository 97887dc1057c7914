use lobda::actor::{
    handle_actor_action_start, handle_actors_refresh_action, refresh_action, start_action, after_round_reset, Actor, ActorAction,
    ActorEvents, ActorRecord, PLAYER_RECOVERY_LINEAR_DAMPING,
};
use lobda::animation::Animation;
use lobda::actor::change_ball_possession;
use lobda::ball::{BallEvent, BallPossession};
use lobda::geometry::Vec2i;
use lobda::team::{get_oposing_team, Team};
use lobda::timer::Countdown;

fn record_at(x: i32, y: i32, team: Team) -> ActorRecord {
    ActorRecord::new(team, Vec2i::new(x, y), None)
}

#[test]
fn opposing_team_swaps_sides() {
    assert_eq!(get_oposing_team(Team::Home), Team::Away);
    assert_eq!(get_oposing_team(Team::Away), Team::Home);
}

#[test]
fn new_actor_is_on_the_lookout() {
    let a = Actor::new();
    assert_eq!(a.act_action, ActorAction::Lookout);
    assert_eq!(a.queued_action, None);
    assert!(!a.has_tackled);
    assert_eq!(Actor::new_idle().act_action, ActorAction::Idle);
}

#[test]
fn queue_on_idle_starts_at_once() {
    let mut a = Actor::new_idle();
    a.queue_action(ActorAction::Running { x: 5, y: 6 });
    assert_eq!(a.act_action, ActorAction::Running { x: 5, y: 6 });
    assert_eq!(a.queued_action, None);
}

#[test]
fn queue_while_running_waits() {
    let mut a = Actor::new();
    a.set_action(ActorAction::Running { x: 5, y: 6 });
    a.queue_action(ActorAction::Throwing { x: 1, y: 1 });
    assert_eq!(a.act_action, ActorAction::Running { x: 5, y: 6 });
    assert_eq!(a.queued_action, Some(ActorAction::Throwing { x: 1, y: 1 }));
}

#[test]
fn trigger_takes_queued_then_default() {
    let mut a = Actor::new();
    a.set_action(ActorAction::Running { x: 5, y: 6 });
    a.queue_action(ActorAction::Throwing { x: 1, y: 1 });
    a.trigger_queued_action(false);
    assert_eq!(a.act_action, ActorAction::Throwing { x: 1, y: 1 });
    assert_eq!(a.queued_action, None);
    // a second completion gives the default follow-up, not the order again
    a.trigger_queued_action(false);
    assert_eq!(a.act_action, ActorAction::Lookout);
    a.trigger_queued_action(true);
    assert_eq!(a.act_action, ActorAction::Idle);
}

#[test]
fn trigger_default_after_tackle_is_idle() {
    let mut a = Actor::new();
    a.has_tackled = true;
    a.set_action(ActorAction::Tackling { x: 1, y: 1 });
    a.trigger_queued_action(false);
    assert_eq!(a.act_action, ActorAction::Idle);
}

#[test]
fn queued_order_follows_completed_run() {
    let mut rec = record_at(0, 0, Team::Home);
    rec.actor.set_action(ActorAction::Running { x: 100, y: 0 });
    rec.actor.queue_action(ActorAction::Throwing { x: 50, y: 50 });
    rec.position = Vec2i::new(99, 1);
    let out = refresh_action(&mut rec, 0, true, false, 16);
    assert!(out.completed);
    assert_eq!(rec.actor.act_action, ActorAction::Throwing { x: 50, y: 50 });
    assert_eq!(rec.actor.queued_action, None);
}

#[test]
fn run_not_complete_two_units_away() {
    let mut rec = record_at(98, 0, Team::Home);
    rec.actor.set_action(ActorAction::Running { x: 100, y: 0 });
    let out = refresh_action(&mut rec, 0, false, false, 16);
    assert!(!out.completed);
    assert_eq!(rec.actor.act_action, ActorAction::Running { x: 100, y: 0 });
}

#[test]
fn run_start_velocity_points_at_target() {
    let mut rec = record_at(0, 0, Team::Home);
    rec.actor.set_action(ActorAction::Running { x: 300, y: 400 });
    let s = start_action(&mut rec, false);
    assert_eq!(s.velocity, Some(Vec2i::new(60, 80)));
    assert_eq!(s.frames, vec![0, 1, 0, 2]);
    assert!(s.looping);
    assert_eq!(s.flip_x, Some(false));
}

#[test]
fn tackle_start_marks_tackled_and_runs_fast() {
    let mut rec = record_at(0, 0, Team::Home);
    rec.actor.set_action(ActorAction::Tackling { x: -3, y: 4 });
    let s = start_action(&mut rec, false);
    assert!(rec.actor.has_tackled);
    assert_eq!(s.velocity, Some(Vec2i::new(-135, 180)));
    assert_eq!(s.frames, vec![10, 11, 12]);
    assert!(!s.looping);
    assert_eq!(s.flip_x, Some(true));
}

#[test]
fn throw_start_stops_the_actor() {
    let mut rec = record_at(0, 0, Team::Home);
    rec.actor.set_action(ActorAction::Throwing { x: 10, y: 0 });
    let s = start_action(&mut rec, true);
    assert_eq!(s.velocity, Some(Vec2i::new(0, 0)));
    assert_eq!(s.frames, vec![7, 8, 9]);
}

#[test]
fn recovery_start_arms_timer_and_damps() {
    let mut rec = record_at(0, 0, Team::Home);
    rec.actor.set_action(ActorAction::Recovering(900));
    let s = start_action(&mut rec, false);
    assert_eq!(rec.timer, Countdown { duration_ms: 900, elapsed_ms: 0 });
    assert_eq!(s.velocity, None);
    assert_eq!(s.linear_damping, PLAYER_RECOVERY_LINEAR_DAMPING);
    assert_eq!(s.frames, vec![6]);
}

#[test]
fn recovery_completes_when_timer_runs_out() {
    let mut rec = record_at(0, 0, Team::Home);
    rec.actor.set_action(ActorAction::Recovering(300));
    start_action(&mut rec, false);
    let out = refresh_action(&mut rec, 0, false, false, 200);
    assert!(!out.completed);
    assert_eq!(rec.timer.elapsed_ms, 200);
    let out = refresh_action(&mut rec, 0, false, false, 200);
    assert!(out.completed);
    assert_eq!(rec.actor.act_action, ActorAction::Lookout);
    assert_eq!(rec.timer, Countdown { duration_ms: 1000, elapsed_ms: 0 });
}

#[test]
fn lookout_asks_for_tackle_search() {
    let mut rec = record_at(7, 8, Team::Away);
    let out = refresh_action(&mut rec, 3, false, false, 16);
    assert_eq!(
        out.look_for_tackle,
        Some(ActorEvents::LookForTackle { entity: 3, team: Team::Away, position: Vec2i::new(7, 8) })
    );
    assert!(!out.completed);
}

#[test]
fn finished_throw_with_ball_releases_it() {
    let mut rec = record_at(1, 2, Team::Home);
    rec.actor.set_action(ActorAction::Throwing { x: 50, y: 60 });
    let out = refresh_action(&mut rec, 4, true, true, 16);
    assert_eq!(
        out.throw,
        Some(BallEvent::Throw { entity: 4, position: Vec2i::new(1, 2), throw_target: Vec2i::new(50, 60), power: 50 })
    );
    assert!(out.completed);
    assert_eq!(rec.actor.act_action, ActorAction::Idle);
}

#[test]
fn finished_throw_without_ball_sends_nothing() {
    let mut rec = record_at(1, 2, Team::Home);
    rec.actor.set_action(ActorAction::Throwing { x: 50, y: 60 });
    let out = refresh_action(&mut rec, 4, false, true, 16);
    assert_eq!(out.throw, None);
    assert!(out.completed);
}

#[test]
fn refresh_whole_roster_uses_possession() {
    let mut roster = vec![record_at(0, 0, Team::Home), record_at(10, 0, Team::Away)];
    roster[0].actor.set_action(ActorAction::Running { x: 0, y: 1 });
    roster[1].actor.set_action(ActorAction::Running { x: 10, y: 1 });
    let mut possession = BallPossession::new();
    possession.set(0);
    let out = handle_actors_refresh_action(&mut roster, &possession, &vec![false, false], 16);
    assert!(out[0].completed && out[1].completed);
    assert_eq!(roster[0].actor.act_action, ActorAction::Idle);
    assert_eq!(roster[1].actor.act_action, ActorAction::Lookout);
}

#[test]
fn round_reset_stops_runners_only() {
    let mut roster = vec![record_at(0, 0, Team::Home), record_at(10, 0, Team::Away)];
    roster[0].actor.set_action(ActorAction::Running { x: 50, y: 0 });
    roster[0].actor.has_tackled = true;
    roster[1].actor.set_action(ActorAction::Recovering(300));
    roster[1].is_tackle_target = true;
    let possession = BallPossession::new();
    after_round_reset(&mut roster, &possession);
    assert_eq!(roster[0].actor.act_action, ActorAction::Lookout);
    assert!(!roster[0].actor.has_tackled);
    assert_eq!(roster[1].actor.act_action, ActorAction::Recovering(300));
    assert!(!roster[1].is_tackle_target);
}

#[test]
fn gaining_ball_on_lookout_goes_idle() {
    let mut a = Actor::new();
    let mut anim = Animation::new(vec![0]);
    change_ball_possession(&mut a, &mut anim, true);
    assert_eq!(a.act_action, ActorAction::Idle);
    assert_eq!(anim.sprite_indexes, vec![3]);
    let mut r = Actor::new();
    r.set_action(ActorAction::Running { x: 1, y: 1 });
    change_ball_possession(&mut r, &mut anim, false);
    assert_eq!(anim.sprite_indexes, vec![0, 1, 0, 2]);
}

#[test]
fn animation_single_run_finishes_on_last_frame() {
    let mut anim = Animation::new(vec![1]);
    anim.update_sprites_indexes(vec![7, 8, 9], false);
    anim.update();
    assert_eq!(anim.get_sprite_index(), 8);
    assert!(!anim.finished);
    anim.update();
    assert_eq!(anim.get_sprite_index(), 9);
    assert!(anim.finished);
    anim.update();
    assert_eq!(anim.get_sprite_index(), 9);
}

#[test]
fn animation_loop_wraps() {
    let mut anim = Animation::new(vec![0, 1]);
    anim.update();
    anim.update();
    assert_eq!(anim.get_sprite_index(), 0);
    assert!(!anim.finished);
}

#[test]
fn only_changed_actions_start() {
    let mut roster = vec![record_at(0, 0, Team::Home), record_at(10, 0, Team::Away)];
    roster[0].actor.set_action(ActorAction::Tackling { x: 0, y: 50 });
    let possession = BallPossession::new();
    let starts = handle_actor_action_start(&mut roster, &possession, &vec![true, false]);
    assert!(roster[0].actor.has_tackled);
    assert_eq!(starts[0].as_ref().unwrap().velocity, Some(Vec2i::new(0, 225)));
    assert!(starts[1].is_none());
}
