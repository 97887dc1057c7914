use lobda::actor::{ActorAction, ActorEvents, ActorRecord};
use lobda::ball::{BallEvent, BallPossession};
use lobda::geometry::Vec2i;
use lobda::tackle::{get_tackle_hit_position, handle_actor_events};
use lobda::team::Team;

fn record_at(x: i32, y: i32, team: Team) -> ActorRecord {
    ActorRecord::new(team, Vec2i::new(x, y), None)
}

#[test]
fn standing_target_is_met_at_second_step() {
    let hit = get_tackle_hit_position(Vec2i::new(50, 0), Vec2i::new(0, 0), Vec2i::new(0, 0));
    assert_eq!(hit, Some(Vec2i::new(50, 0)));
}

#[test]
fn crossing_runner_is_met_ahead() {
    // a runner 40 units away crossing at 100 units per second
    let hit = get_tackle_hit_position(Vec2i::new(40, 0), Vec2i::new(0, 100), Vec2i::new(0, 0));
    // after a fifth of a second it stands at (40, 20): 44.7 units away, a
    // tackle speed of about 224 units per second
    assert_eq!(hit, Some(Vec2i::new(40, 20)));
}

#[test]
fn hit_lies_within_tackle_reach() {
    let origin = Vec2i::new(10, -20);
    let hit = get_tackle_hit_position(Vec2i::new(60, 10), Vec2i::new(-80, 30), origin).unwrap();
    let dx = (hit.x - origin.x) as i64;
    let dy = (hit.y - origin.y) as i64;
    assert!(dx * dx + dy * dy < 120 * 120);
}

#[test]
fn runner_too_fast_escapes() {
    let hit = get_tackle_hit_position(Vec2i::new(100, 0), Vec2i::new(500, 0), Vec2i::new(0, 0));
    assert_eq!(hit, None);
}

#[test]
fn lookout_tackles_passing_opponent() {
    let mut roster = vec![record_at(0, 0, Team::Home), record_at(40, 0, Team::Away)];
    roster[1].actor.set_action(ActorAction::Running { x: 40, y: 300 });
    roster[1].velocity = Vec2i::new(0, 100);
    let mut possession = BallPossession::new();
    let events = vec![ActorEvents::LookForTackle { entity: 0, team: Team::Home, position: Vec2i::new(0, 0) }];
    let out = handle_actor_events(&events, &mut roster, &mut possession);
    assert!(out.is_empty());
    assert_eq!(roster[0].actor.act_action, ActorAction::Tackling { x: 40, y: 20 });
    assert_eq!(roster[0].actor.queued_action, Some(ActorAction::Idle));
    assert!(roster[1].is_tackle_target);
}

#[test]
fn claimed_target_is_not_tackled_twice() {
    let mut roster = vec![record_at(0, 0, Team::Home), record_at(40, 0, Team::Away), record_at(0, 10, Team::Home)];
    roster[1].actor.set_action(ActorAction::Running { x: 40, y: 300 });
    roster[1].velocity = Vec2i::new(0, 100);
    let mut possession = BallPossession::new();
    let events = vec![
        ActorEvents::LookForTackle { entity: 0, team: Team::Home, position: Vec2i::new(0, 0) },
        ActorEvents::LookForTackle { entity: 2, team: Team::Home, position: Vec2i::new(0, 10) },
    ];
    handle_actor_events(&events, &mut roster, &mut possession);
    assert!(matches!(roster[0].actor.act_action, ActorAction::Tackling { .. }));
    assert_eq!(roster[2].actor.act_action, ActorAction::Lookout);
}

#[test]
fn teammates_and_distant_runners_are_ignored() {
    let mut roster = vec![record_at(0, 0, Team::Home), record_at(40, 0, Team::Home), record_at(100, 0, Team::Away)];
    roster[1].actor.set_action(ActorAction::Running { x: 40, y: 300 });
    roster[2].actor.set_action(ActorAction::Running { x: 100, y: 300 });
    let mut possession = BallPossession::new();
    let events = vec![ActorEvents::LookForTackle { entity: 0, team: Team::Home, position: Vec2i::new(0, 0) }];
    handle_actor_events(&events, &mut roster, &mut possession);
    assert_eq!(roster[0].actor.act_action, ActorAction::Lookout);
}

#[test]
fn runner_bumped_by_runner_recovers_briefly() {
    let mut roster = vec![record_at(0, 0, Team::Home), record_at(20, 0, Team::Away)];
    let mut possession = BallPossession::new();
    let events = vec![ActorEvents::ActorsCollided {
        actor_entity: 0,
        actor_action: ActorAction::Running { x: 1, y: 1 },
        other_actor_entity: 1,
        other_actor_action: ActorAction::Running { x: 2, y: 2 },
    }];
    handle_actor_events(&events, &mut roster, &mut possession);
    assert_eq!(roster[0].actor.act_action, ActorAction::Recovering(300));
}

#[test]
fn tackler_pays_nothing() {
    let mut roster = vec![record_at(0, 0, Team::Home), record_at(20, 0, Team::Away)];
    let mut possession = BallPossession::new();
    let events = vec![ActorEvents::ActorsCollided {
        actor_entity: 0,
        actor_action: ActorAction::Tackling { x: 1, y: 1 },
        other_actor_entity: 1,
        other_actor_action: ActorAction::Running { x: 2, y: 2 },
    }];
    handle_actor_events(&events, &mut roster, &mut possession);
    assert_eq!(roster[0].actor.act_action, ActorAction::Idle);
}

#[test]
fn tackled_holder_hands_ball_to_tackler() {
    let mut roster = vec![record_at(0, 0, Team::Home), record_at(20, 0, Team::Away)];
    roster[1].actor.set_action(ActorAction::Tackling { x: 0, y: 0 });
    let mut possession = BallPossession::new();
    possession.set(0);
    let events = vec![ActorEvents::ActorsCollided {
        actor_entity: 0,
        actor_action: ActorAction::Running { x: 1, y: 1 },
        other_actor_entity: 1,
        other_actor_action: ActorAction::Tackling { x: 0, y: 0 },
    }];
    let out = handle_actor_events(&events, &mut roster, &mut possession);
    assert!(out.is_empty());
    assert_eq!(possession.get(), Some(1));
    assert_eq!(roster[0].actor.act_action, ActorAction::Recovering(900));
}

#[test]
fn bumped_holder_drops_ball() {
    let mut roster = vec![record_at(5, 6, Team::Home), record_at(20, 0, Team::Away)];
    roster[0].velocity = Vec2i::new(30, -40);
    let mut possession = BallPossession::new();
    possession.set(0);
    let events = vec![ActorEvents::ActorsCollided {
        actor_entity: 0,
        actor_action: ActorAction::Running { x: 1, y: 1 },
        other_actor_entity: 1,
        other_actor_action: ActorAction::Running { x: 0, y: 0 },
    }];
    let out = handle_actor_events(&events, &mut roster, &mut possession);
    assert_eq!(out, vec![BallEvent::Drop { entity: 0, position: Vec2i::new(5, 6), velocity_vector: Vec2i::new(30, -40) }]);
    assert!(possession.is_free());
}

#[test]
fn missing_actor_event_is_dropped() {
    let mut roster = vec![record_at(0, 0, Team::Home)];
    let mut possession = BallPossession::new();
    let events = vec![ActorEvents::ActorsCollided {
        actor_entity: 5,
        actor_action: ActorAction::Idle,
        other_actor_entity: 0,
        other_actor_action: ActorAction::Tackling { x: 0, y: 0 },
    }];
    let out = handle_actor_events(&events, &mut roster, &mut possession);
    assert!(out.is_empty());
    assert_eq!(roster[0].actor.act_action, ActorAction::Lookout);
}
