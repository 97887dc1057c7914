use lobda::actor::{refresh_action, start_action, ActorAction, ActorEvents, ActorRecord};
use lobda::animation::Animation;
use lobda::ball::{handle_ball_events, BallCommand, BallEvent, BallPossession};
use lobda::collision::{handle_collision_events, Body, RRCollisionEvent};
use lobda::geometry::Vec2i;
use lobda::input::give_order;
use lobda::tackle::handle_actor_events;
use lobda::team::Team;

fn record_at(x: i32, y: i32, team: Team) -> ActorRecord {
    ActorRecord::new(team, Vec2i::new(x, y), None)
}

#[test]
fn run_to_target_ends_idle_and_still() {
    let mut rec = record_at(0, 0, Team::Home);
    give_order(&mut rec.actor, ActorAction::Running { x: 100, y: 0 });
    let start = start_action(&mut rec, true);
    assert_eq!(start.velocity, Some(Vec2i::new(100, 0)));
    // the body has moved to within two units of the target
    rec.position = Vec2i::new(99, 0);
    let out = refresh_action(&mut rec, 0, true, false, 16);
    assert!(out.completed);
    assert_eq!(rec.actor.act_action, ActorAction::Idle);
    assert_eq!(rec.actor.queued_action, None);
    let stop = start_action(&mut rec, true);
    assert_eq!(stop.velocity, Some(Vec2i::new(0, 0)));
}

#[test]
fn run_without_ball_ends_on_lookout_and_still() {
    let mut rec = record_at(0, 0, Team::Home);
    give_order(&mut rec.actor, ActorAction::Running { x: 100, y: 0 });
    rec.position = Vec2i::new(101, 1);
    let out = refresh_action(&mut rec, 0, false, false, 16);
    assert!(out.completed);
    assert_eq!(rec.actor.act_action, ActorAction::Lookout);
    let stop = start_action(&mut rec, false);
    assert_eq!(stop.velocity, Some(Vec2i::new(0, 0)));
}

#[test]
fn tackled_holder_recovers_and_ball_comes_loose() {
    let mut roster = vec![record_at(0, 0, Team::Home), record_at(20, 0, Team::Away)];
    roster[0].actor.set_action(ActorAction::Running { x: 200, y: 0 });
    roster[0].velocity = Vec2i::new(100, 0);
    roster[1].actor.set_action(ActorAction::Tackling { x: 0, y: 0 });
    roster[1].velocity = Vec2i::new(-225, 0);
    let mut possession = BallPossession::new();
    possession.set(0);
    let contacts = vec![RRCollisionEvent { a: Body::Actor(0), b: Body::Actor(1) }];
    let found = handle_collision_events(&contacts, &roster);
    let drops = handle_actor_events(&found.actor_events, &mut roster, &mut possession);
    assert_eq!(roster[0].actor.act_action, ActorAction::Recovering(900));
    assert_eq!(roster[1].actor.act_action, ActorAction::Idle);
    // the tackler takes the ball over and loses it in its own half of the collision
    assert_eq!(
        drops,
        vec![BallEvent::Drop { entity: 1, position: Vec2i::new(20, 0), velocity_vector: Vec2i::new(-225, 0) }]
    );
    assert!(possession.is_free());
    let mut anims = vec![Animation::new(vec![0]), Animation::new(vec![0])];
    let cmds = handle_ball_events(&drops, &mut roster, &mut anims, &mut possession);
    match cmds[0] {
        BallCommand::Spawn(s) => {
            assert_eq!(s.position, Vec2i::new(4, 0));
            assert_eq!(s.velocity, Vec2i::new(-337, 0));
        },
        _ => panic!("the ball should be put back on the field"),
    }
    assert!(possession.is_free());
}

#[test]
fn two_runners_bump_each_other() {
    let mut roster = vec![record_at(0, 0, Team::Home), record_at(20, 0, Team::Away)];
    roster[0].actor.set_action(ActorAction::Running { x: 200, y: 0 });
    roster[1].actor.set_action(ActorAction::Running { x: -200, y: 0 });
    let mut possession = BallPossession::new();
    let contacts = vec![RRCollisionEvent { a: Body::Actor(0), b: Body::Actor(1) }];
    let found = handle_collision_events(&contacts, &roster);
    assert_eq!(found.actor_events.len(), 2);
    assert!(matches!(found.actor_events[0], ActorEvents::ActorsCollided { actor_entity: 0, other_actor_entity: 1, .. }));
    assert!(matches!(found.actor_events[1], ActorEvents::ActorsCollided { actor_entity: 1, other_actor_entity: 0, .. }));
    let drops = handle_actor_events(&found.actor_events, &mut roster, &mut possession);
    assert!(drops.is_empty());
    assert_eq!(roster[0].actor.act_action, ActorAction::Recovering(300));
    assert_eq!(roster[1].actor.act_action, ActorAction::Recovering(300));
}
