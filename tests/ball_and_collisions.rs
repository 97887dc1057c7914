use lobda::actor::{ActorAction, ActorEvents, ActorRecord};
use lobda::animation::Animation;
use lobda::ball::{
    handle_ball_events, spawn_dropped_ball, spawn_thrown_ball, update_thrown_ball, BallCommand, BallEvent,
    BallPossession, BallSpawn,
};
use lobda::collision::{
    handle_collision_events, match_entity_pair_to_colliders, send_rr_collision_event, Body, ColliderType,
    RRCollisionEvent,
};
use lobda::geometry::Vec2i;
use lobda::matchup::MatchupEvents;
use lobda::team::Team;
use lobda::timer::Countdown;

fn record_at(x: i32, y: i32, team: Team) -> ActorRecord {
    ActorRecord::new(team, Vec2i::new(x, y), None)
}

#[test]
fn possession_set_get_clear() {
    let mut p = BallPossession::new();
    assert!(p.is_free());
    assert_eq!(p.get(), None);
    p.set(3);
    assert_eq!(p.get(), Some(3));
    assert!(!p.is_free());
    assert!(p.has_actor_ball(3));
    assert!(!p.has_actor_ball(2));
    p.clear();
    assert_eq!(p.get(), None);
    assert!(p.is_free());
}

#[test]
fn pair_is_ordered_by_category() {
    let a = Body::Actor(2);
    assert_eq!(
        match_entity_pair_to_colliders(Body::Ball, a, ColliderType::Ball, ColliderType::Actor),
        Some((Body::Ball, a))
    );
    assert_eq!(
        match_entity_pair_to_colliders(a, Body::Ball, ColliderType::Ball, ColliderType::Actor),
        Some((Body::Ball, a))
    );
    assert_eq!(match_entity_pair_to_colliders(a, Body::Wall, ColliderType::Ball, ColliderType::Actor), None);
}

#[test]
fn unidentified_contacts_are_dropped() {
    let raw = vec![(Some(Body::Ball), None), (Some(Body::Wall), Some(Body::Ball))];
    assert_eq!(send_rr_collision_event(&raw), vec![RRCollisionEvent { a: Body::Wall, b: Body::Ball }]);
}

#[test]
fn contacts_become_events() {
    let mut roster = vec![record_at(0, 0, Team::Home), record_at(10, 0, Team::Away)];
    roster[1].actor.set_action(ActorAction::Recovering(300));
    let events = vec![
        RRCollisionEvent { a: Body::Actor(0), b: Body::Ball },
        RRCollisionEvent { a: Body::Ball, b: Body::Actor(1) },
        RRCollisionEvent { a: Body::Wall, b: Body::Ball },
        RRCollisionEvent { a: Body::Ball, b: Body::GoalPost(Team::Away) },
        RRCollisionEvent { a: Body::Actor(0), b: Body::Wall },
    ];
    let out = handle_collision_events(&events, &roster);
    assert!(out.actor_events.is_empty());
    assert_eq!(out.ball_events, vec![BallEvent::Pickup { actor_entity: 0 }, BallEvent::WallBounce]);
    assert_eq!(out.matchup_events, vec![MatchupEvents::Scored(Team::Away, 1)]);
}

#[test]
fn throwing_and_tackling_actors_cannot_pick_up() {
    let mut roster = vec![record_at(0, 0, Team::Home), record_at(10, 0, Team::Away)];
    roster[0].actor.set_action(ActorAction::Throwing { x: 1, y: 1 });
    roster[1].actor.set_action(ActorAction::Tackling { x: 1, y: 1 });
    let events = vec![
        RRCollisionEvent { a: Body::Actor(0), b: Body::Ball },
        RRCollisionEvent { a: Body::Ball, b: Body::Actor(1) },
    ];
    let out = handle_collision_events(&events, &roster);
    assert!(out.ball_events.is_empty());
}

#[test]
fn actor_collision_gives_both_sides() {
    let mut roster = vec![record_at(0, 0, Team::Home), record_at(10, 0, Team::Away)];
    roster[0].actor.set_action(ActorAction::Tackling { x: 10, y: 0 });
    let out = handle_collision_events(&vec![RRCollisionEvent { a: Body::Actor(0), b: Body::Actor(1) }], &roster);
    assert_eq!(
        out.actor_events,
        vec![
            ActorEvents::ActorsCollided {
                actor_entity: 0,
                actor_action: ActorAction::Tackling { x: 10, y: 0 },
                other_actor_entity: 1,
                other_actor_action: ActorAction::Lookout,
            },
            ActorEvents::ActorsCollided {
                actor_entity: 1,
                actor_action: ActorAction::Lookout,
                other_actor_entity: 0,
                other_actor_action: ActorAction::Tackling { x: 10, y: 0 },
            },
        ]
    );
}

#[test]
fn dropped_ball_rolls_ahead_faster() {
    let s = spawn_dropped_ball(Vec2i::new(10, 0), Vec2i::new(100, 0));
    assert_eq!(
        s,
        BallSpawn { position: Vec2i::new(26, 0), velocity: Vec2i::new(150, 0), linear_damping: 1500, air_time: None }
    );
}

#[test]
fn dropped_ball_without_motion_stays_put() {
    let s = spawn_dropped_ball(Vec2i::new(10, 5), Vec2i::new(0, 0));
    assert_eq!(s.position, Vec2i::new(10, 5));
    assert_eq!(s.velocity, Vec2i::new(0, 0));
}

#[test]
fn thrown_ball_flies_at_throw_speed() {
    let s = spawn_thrown_ball(Vec2i::new(0, 0), Vec2i::new(300, 400), 50);
    assert_eq!(
        s,
        BallSpawn { position: Vec2i::new(19, 25), velocity: Vec2i::new(180, 240), linear_damping: 0, air_time: Some(1000) }
    );
}

#[test]
fn ball_events_move_possession() {
    let mut roster = vec![record_at(0, 0, Team::Home), record_at(10, 0, Team::Away)];
    let mut anims = vec![Animation::new(vec![0]), Animation::new(vec![0])];
    let mut possession = BallPossession::new();
    let events = vec![
        BallEvent::Pickup { actor_entity: 0 },
        BallEvent::Throw { entity: 0, position: Vec2i::new(0, 0), throw_target: Vec2i::new(0, 100), power: 50 },
        BallEvent::WallBounce,
    ];
    let out = handle_ball_events(&events, &mut roster, &mut anims, &mut possession);
    assert_eq!(
        out,
        vec![
            BallCommand::Despawn,
            BallCommand::Spawn(BallSpawn {
                position: Vec2i::new(0, 32),
                velocity: Vec2i::new(0, 300),
                linear_damping: 0,
                air_time: Some(1000),
            }),
            BallCommand::SetDamping(500),
        ]
    );
    assert!(possession.is_free());
    assert_eq!(roster[0].actor.act_action, ActorAction::Idle);
    assert_eq!(anims[0].sprite_indexes, vec![0]);
}

#[test]
fn pickup_gives_ball_and_idle_frames() {
    let mut roster = vec![record_at(0, 0, Team::Home)];
    let mut anims = vec![Animation::new(vec![0])];
    let mut possession = BallPossession::new();
    handle_ball_events(&vec![BallEvent::Pickup { actor_entity: 0 }], &mut roster, &mut anims, &mut possession);
    assert_eq!(possession.get(), Some(0));
    assert_eq!(anims[0].sprite_indexes, vec![3]);
}

#[test]
fn recovering_actor_cannot_take_ball() {
    let mut roster = vec![record_at(0, 0, Team::Home)];
    roster[0].actor.set_action(ActorAction::Recovering(300));
    let mut anims = vec![Animation::new(vec![0])];
    let mut possession = BallPossession::new();
    let out =
        handle_ball_events(&vec![BallEvent::Pickup { actor_entity: 0 }], &mut roster, &mut anims, &mut possession);
    assert!(out.is_empty());
    assert!(possession.is_free());
}

#[test]
fn thrown_ball_lands_after_air_time() {
    let mut air = Some(Countdown::new(1000));
    assert_eq!(update_thrown_ball(&mut air, 600), None);
    assert_eq!(air, Some(Countdown { duration_ms: 1000, elapsed_ms: 600 }));
    assert_eq!(update_thrown_ball(&mut air, 600), Some(2500));
    assert_eq!(air, None);
    assert_eq!(update_thrown_ball(&mut air, 600), None);
}

#[test]
fn strong_throw_stays_in_the_air_longer() {
    let s = spawn_thrown_ball(Vec2i::new(0, 0), Vec2i::new(300, 400), 250);
    assert_eq!(s.air_time, Some(5000));
}
