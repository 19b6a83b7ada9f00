use goblin_raid::combat::HitType;
use goblin_raid::direction::{AnimationId, Direction, EndControl};
use goblin_raid::goblin::{
    AnimationRequest, Goblin, GoblinSenses, GoblinState, RayHit, Sighting, Waypoint,
};
use goblin_raid::lifecycle::{AttachedSensor, ColliderDesc, Lifecycle, ObjectId, Shape};
use goblin_raid::player::{Player, PlayerState};
use goblin_raid::waves::{WaveSystem, WaveText};
use goblin_raid::{Entity, Vec2};

fn ent(id: u32) -> Entity {
    Entity { id, generation: 0 }
}

fn quiet() -> GoblinSenses {
    GoblinSenses {
        animation_ready: true,
        attack_animation_active: false,
        pylon: None,
        player: None,
        waypoint: None,
        waypoint_offset: None,
        target_alive: false,
        target_offset: None,
        rays: Vec::new(),
    }
}

fn goblin(state: GoblinState) -> Goblin {
    Goblin {
        walk_speed: 40,
        lunge_speed: 120,
        state,
        facing: Direction::South,
        chase_distance: 150,
        attack_distance: 100,
    }
}

#[test]
fn direction_basics() {
    assert_eq!(
        Direction::vec(),
        vec![Direction::East, Direction::North, Direction::West, Direction::South]
    );
    assert_eq!(Direction::North.tilts(), Vec2 { x: 0, y: 1 });
    assert_eq!(Direction::East.clockwise(), Direction::South);
    assert_eq!(Direction::North.clockwise(), Direction::East);
    assert_eq!(Direction::West.scaled_by(40), Vec2 { x: -40, y: 0 });
    assert_eq!(Direction::from_coins(false, true), Direction::West);
    let d = Direction::pick();
    assert!(Direction::vec().contains(&d));
}

#[test]
fn seek_heuristics() {
    assert_eq!(Direction::long_seek(5, -9), Direction::South);
    assert_eq!(Direction::long_seek(5, 5), Direction::East);
    assert_eq!(Direction::long_seek(-5, 2), Direction::West);
    // Outside the dead zone the axis of larger magnitude wins.
    assert_eq!(Direction::short_seek(10, 6, 4), Direction::East);
    assert_eq!(Direction::short_seek(30, 10, 4), Direction::East);
    assert_eq!(Direction::short_seek(10, -30, 4), Direction::South);
    assert_eq!(Direction::short_seek(-20, 20, 4), Direction::West);
    // Inside the dead zone it is the long seek.
    assert_eq!(Direction::short_seek(30, 2, 4), Direction::East);
}

#[test]
fn facing_from_axes() {
    assert_eq!(Direction::from_axes(0, 0, Direction::North), Direction::North);
    assert_eq!(Direction::from_axes(500, 500, Direction::North), Direction::East);
    assert_eq!(Direction::from_axes(-200, 900, Direction::East), Direction::North);
    assert_eq!(Direction::from_axes(-900, 200, Direction::East), Direction::West);
}

#[test]
fn animation_ids() {
    assert_eq!(AnimationId::Staggered(Direction::West).direction(), Direction::West);
    assert!(AnimationId::Attack(Direction::East).is_attack());
    assert!(!AnimationId::Walk(Direction::East).is_attack());
}

#[test]
fn goblin_chases_attacks_and_returns_to_idle() {
    let w = ent(10);
    let player = ent(1);
    let mut g = goblin(GoblinState::Moving(w));

    let mut s = quiet();
    s.player = Some(Sighting { entity: player, offset: Vec2 { x: 120, y: 0 } });
    g.think(&s, 16, 0);
    assert_eq!(g.state, GoblinState::Chasing(w, player));

    let mut s = quiet();
    s.target_alive = true;
    s.target_offset = Some(Vec2 { x: 90, y: 0 });
    s.rays = vec![
        RayHit { direction: Direction::East, entity: player, distance: 90 },
        RayHit { direction: Direction::North, entity: player, distance: 95 },
    ];
    let c = g.think(&s, 16, 77);
    assert_eq!(g.state, GoblinState::Attacking(w, 77, 0));
    assert_eq!(g.facing, Direction::East);
    let spawn = c.spawn_hitbox.unwrap();
    assert_eq!(spawn.hitbox.id, 77);
    assert_eq!(spawn.hitbox.hit_type, HitType::EnemyAttack);
    assert_eq!(spawn.hitbox.damage, 1);
    assert_eq!(spawn.offset, Vec2 { x: 6, y: -3 });
    assert_eq!(
        c.animation,
        Some(AnimationRequest { id: AnimationId::Attack(Direction::East), end: EndControl::Stay })
    );

    let mut table = Lifecycle::new();
    let me = ent(5);
    let sensor = ent(6);
    table.record_body(me, ObjectId { index: 0, generation: 0 }, ObjectId { index: 0, generation: 0 });
    let desc = ColliderDesc { shape: Shape::Cuboid(Vec2 { x: 6, y: 6 }), sensor: true, offset: spawn.offset };
    table.add_sensor(sensor, me, AttachedSensor::new(desc));
    let (i, body) = table.next_sensor_to_attach().unwrap();
    table.record_sensor(i, body, ObjectId { index: 1, generation: 0 });
    assert_eq!(table.get_sensors(me).len(), 1);

    let mut s = quiet();
    s.attack_animation_active = false;
    let c = g.think(&s, 16, 0);
    assert_eq!(g.state, GoblinState::Idling(w, 4000));
    assert!(c.clear_hitboxes);
    // The host deleted the hitbox entity; the next reconciliation drops it.
    table.reconcile(&vec![me]);
    assert!(table.get_sensors(me).is_empty());
}

#[test]
fn goblin_out_of_range_keeps_walking() {
    let w = ent(10);
    let mut g = goblin(GoblinState::Moving(w));
    let mut s = quiet();
    s.player = Some(Sighting { entity: ent(1), offset: Vec2 { x: 151, y: 0 } });
    s.waypoint = Some(Waypoint { next: None, margin: 8 });
    s.waypoint_offset = Some(Vec2 { x: -50, y: 20 });
    let c = g.think(&s, 16, 0);
    assert_eq!(g.state, GoblinState::Moving(w));
    assert_eq!(c.velocity, Some(Vec2 { x: 0, y: -40 }));
    assert_eq!(g.facing, Direction::West);
}

#[test]
fn goblin_prefers_pylon() {
    let w = ent(10);
    let mut g = goblin(GoblinState::Moving(w));
    let mut s = quiet();
    s.player = Some(Sighting { entity: ent(1), offset: Vec2 { x: 10, y: 0 } });
    s.pylon = Some(Sighting { entity: ent(2), offset: Vec2 { x: 0, y: 150 } });
    assert_eq!(g.should_chase(&s), Some(ent(2)));
    g.think(&s, 16, 0);
    assert_eq!(g.state, GoblinState::Chasing(w, ent(2)));
}

#[test]
fn goblin_advances_along_waypoints() {
    let w = ent(10);
    let next = ent(11);
    let mut g = goblin(GoblinState::Moving(w));
    let mut s = quiet();
    s.waypoint = Some(Waypoint { next: Some(next), margin: 8 });
    s.waypoint_offset = Some(Vec2 { x: 5, y: 5 });
    g.think(&s, 16, 0);
    assert_eq!(g.state, GoblinState::Moving(next));
}

#[test]
fn idling_goblin_counts_down_then_moves() {
    let w = ent(10);
    let mut g = goblin(GoblinState::Idling(w, 20));
    let c = g.think(&quiet(), 16, 0);
    assert_eq!(g.state, GoblinState::Idling(w, 4));
    assert_eq!(c.velocity, Some(Vec2 { x: 0, y: 0 }));
    g.think(&quiet(), 16, 0);
    assert_eq!(g.state, GoblinState::Moving(w));
}

#[test]
fn rested_goblin_ignores_target() {
    let w = ent(10);
    let mut g = goblin(GoblinState::Idling(w, 3000));
    let mut s = quiet();
    s.player = Some(Sighting { entity: ent(1), offset: Vec2 { x: 10, y: 0 } });
    g.think(&s, 16, 0);
    assert_eq!(g.state, GoblinState::Idling(w, 2984));
    let mut g = goblin(GoblinState::Idling(w, 1000));
    g.think(&s, 16, 0);
    assert_eq!(g.state, GoblinState::Chasing(w, ent(1)));
}

#[test]
fn chase_ends_when_target_gone() {
    let w = ent(10);
    let mut g = goblin(GoblinState::Chasing(w, ent(1)));
    let c = g.think(&quiet(), 16, 0);
    assert_eq!(g.state, GoblinState::Idling(w, 4000));
    assert!(c.clear_hitboxes);
}

#[test]
fn attack_ends_after_mock_animation_finishes() {
    let w = ent(10);
    let mut g = goblin(GoblinState::Attacking(w, 3, 0));
    g.facing = Direction::West;
    let mut s = quiet();
    s.attack_animation_active = true;
    let mut lunged = false;
    for _ in 0..30 {
        let c = g.think(&s, 16, 0);
        if c.velocity == Some(Vec2 { x: -120, y: 0 }) {
            lunged = true;
        }
        assert!(matches!(g.state, GoblinState::Attacking(x, 3, _) if x == w));
    }
    assert!(lunged);
    assert_eq!(g.state, GoblinState::Attacking(w, 3, 480));
    s.attack_animation_active = false;
    let c = g.think(&s, 16, 0);
    assert_eq!(g.state, GoblinState::Idling(w, 4000));
    assert!(c.clear_hitboxes);
}

#[test]
fn staggered_goblin_recovers() {
    let w = ent(10);
    let mut g = goblin(GoblinState::Hit(w, 20));
    g.think(&quiet(), 16, 0);
    assert_eq!(g.state, GoblinState::Hit(w, 4));
    let c = g.think(&quiet(), 16, 0);
    assert_eq!(g.state, GoblinState::Idling(w, 3000));
    assert!(c.clear_hitboxes);
}

#[test]
fn goblin_without_animation_is_skipped() {
    let w = ent(10);
    let mut g = goblin(GoblinState::Hit(w, 20));
    let mut s = quiet();
    s.animation_ready = false;
    let c = g.think(&s, 16, 0);
    assert_eq!(g.state, GoblinState::Hit(w, 20));
    assert_eq!(c.velocity, None);
    assert_eq!(c.animation, None);
}

#[test]
fn goblin_tick_draws_a_fresh_id() {
    let w = ent(10);
    let player = ent(1);
    let mut g = goblin(GoblinState::Chasing(w, player));
    let mut s = quiet();
    s.target_alive = true;
    s.rays = vec![RayHit { direction: Direction::South, entity: player, distance: 20 }];
    let c = g.tick(&s, 16);
    let id = c.spawn_hitbox.unwrap().hitbox.id;
    assert_eq!(g.state, GoblinState::Attacking(w, id, 0));
    assert_eq!(g.state.get_waypoint(), w);
}

#[test]
fn player_attack_cycle() {
    let mut p = Player::spawned();
    let c = p.attack_step(true, false, false, 16, 0);
    assert!(c.clear_hitbox);
    let c = p.attack_step(true, true, false, 16, 9);
    assert_eq!(p.state, PlayerState::Attacking(9));
    assert_eq!(c.velocity, Some(Vec2 { x: 0, y: 0 }));
    let spawn = c.spawn_hitbox.unwrap();
    assert_eq!(spawn.hitbox.hit_type, HitType::FriendlyAttack);
    assert_eq!(spawn.offset, Vec2 { x: -4, y: -8 });
    p.attack_step(true, false, true, 16, 0);
    assert_eq!(p.state, PlayerState::Attacking(9));
    let c = p.attack_step(true, false, false, 16, 0);
    assert_eq!(p.state, PlayerState::Moving);
    assert_eq!(
        c.animation,
        Some(AnimationRequest { id: AnimationId::Idle(Direction::South), end: EndControl::Loop })
    );
}

#[test]
fn player_tick_draws_a_fresh_id() {
    let mut p = Player::spawned();
    let c = p.attack_tick(true, true, false, 16);
    assert_eq!(p.state, PlayerState::Attacking(c.spawn_hitbox.unwrap().hitbox.id));
}

#[test]
fn player_recovers_from_hit() {
    let mut p = Player::spawned();
    p.stagger();
    let c = p.attack_step(true, false, false, 300, 0);
    assert_eq!(p.state, PlayerState::Hit(200));
    assert!(c.clear_hitbox);
    p.attack_step(true, false, false, 300, 0);
    assert_eq!(p.state, PlayerState::Moving);
}

#[test]
fn player_movement_follows_axes() {
    let mut p = Player::spawned();
    let (v, a) = p.movement_step(true, -500, 250);
    assert_eq!(v, Some(Vec2 { x: -50, y: 25 }));
    assert_eq!(a, Some(AnimationRequest { id: AnimationId::Walk(Direction::West), end: EndControl::Loop }));
    assert_eq!(p.facing, Direction::West);
    let (v, a) = p.movement_step(true, 0, 0);
    assert_eq!(v, Some(Vec2 { x: 0, y: 0 }));
    assert_eq!(a, Some(AnimationRequest { id: AnimationId::Idle(Direction::West), end: EndControl::Loop }));
    p.state = PlayerState::Attacking(1);
    assert_eq!(p.movement_step(true, 1000, 0), (None, None));
}

#[test]
fn spawned_actors() {
    let w = ent(3);
    let g = Goblin::spawned(w);
    assert_eq!(g.state, GoblinState::Idling(w, 5000));
    assert_eq!(Goblin::spawn_health().current_health, 3);
    assert!(!Goblin::spawn_health().friendly);
    assert!(Player::spawn_health().friendly);
    assert_eq!(Player::spawn_health().current_health, 100);
    assert_eq!(Waypoint::spawned(), Waypoint { next: None, margin: 8 });
}

#[test]
fn waves_respawn_after_delay() {
    let mut w = WaveSystem::new();
    let t = w.tick(0, 16);
    assert!(t.spawn_wave);
    let t = w.tick(3, 16);
    assert!(!t.spawn_wave);
    assert_eq!(t.text, WaveText::GoblinsLeft(3));
    assert_eq!(w.idle_time, 0);
    let t = w.tick(0, 1500);
    assert_eq!(t.text, WaveText::NextWaveIn(14));
    assert!(!t.spawn_wave);
    let t = w.tick(0, 13500);
    assert_eq!(t.text, WaveText::Unchanged);
    assert!(!t.spawn_wave);
    let t = w.tick(0, 1);
    assert!(t.spawn_wave);
}
