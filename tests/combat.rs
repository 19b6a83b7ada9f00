use goblin_raid::combat::{
    dead_entities, knockback, resolve_attacks, stagger_goblins, stagger_players, AttackHitbox, Combatant, Health, HealthDisplaySystem,
    HitReport, HitType, Overlap,
};
use goblin_raid::goblin::{Goblin, GoblinState};
use goblin_raid::lifecycle::{AttachedSensor, ColliderDesc, Lifecycle, ObjectId, Shape};
use goblin_raid::player::{Player, PlayerState};
use goblin_raid::{Entity, Vec2};

fn ent(id: u32) -> Entity {
    Entity { id, generation: 0 }
}

fn enemy_hit(id: usize, damage: usize) -> AttackHitbox {
    AttackHitbox { id, hit_type: HitType::EnemyAttack, damage }
}

fn friendly_hit(id: usize, damage: usize) -> AttackHitbox {
    AttackHitbox { id, hit_type: HitType::FriendlyAttack, damage }
}

fn oid(index: usize) -> ObjectId {
    ObjectId { index, generation: 0 }
}

#[test]
fn new_health_has_no_hits() {
    let h = Health::new(true, 16);
    assert!(h.friendly);
    assert_eq!(h.current_health, 16);
    assert!(h.hit_by.is_empty());
}

#[test]
fn valid_hit_records_swing_and_damages() {
    let mut h = Health::new(true, 10);
    assert!(h.take_hit(&enemy_hit(7, 3)));
    assert_eq!(h.current_health, 7);
    assert_eq!(h.hit_by, vec![7]);
}

#[test]
fn damage_is_floored_at_zero() {
    let mut h = Health::new(false, 2);
    assert!(h.take_hit(&friendly_hit(1, 5)));
    assert_eq!(h.current_health, 0);
    assert!(h.is_dead());
}

#[test]
fn same_swing_never_hits_twice() {
    let mut h = Health::new(false, 3);
    for _ in 0..5 {
        h.take_hit(&friendly_hit(42, 1));
    }
    assert_eq!(h.current_health, 2);
    assert_eq!(h.hit_by, vec![42]);
}

#[test]
fn friendly_attack_spares_friendly_target() {
    let mut h = Health::new(true, 5);
    assert!(!h.take_hit(&friendly_hit(1, 3)));
    assert_eq!(h.current_health, 5);
    assert!(h.hit_by.is_empty());
}

#[test]
fn enemy_attack_spares_enemy_target() {
    let mut h = Health::new(false, 5);
    assert!(!h.take_hit(&enemy_hit(1, 3)));
    assert_eq!(h.current_health, 5);
}

#[test]
fn knockback_pushes_away_along_dominant_axis() {
    // The hitbox lies east of the target: the target flies west.
    assert_eq!(knockback(Vec2 { x: 10, y: 3 }), Vec2 { x: -60, y: 0 });
    // The hitbox lies south: the target flies north.
    assert_eq!(knockback(Vec2 { x: 2, y: -9 }), Vec2 { x: 0, y: 60 });
}

#[test]
fn player_hit_twice_in_one_tick_then_repeat_ignored() {
    let player = ent(1);
    let mut cs = vec![Combatant { entity: player, health: Health::new(true, 100) }];
    let tick1 = vec![
        Overlap { hitbox: enemy_hit(11, 1), target: player, offset: None },
        Overlap { hitbox: enemy_hit(12, 1), target: player, offset: None },
    ];
    let r1 = resolve_attacks(&mut cs, &tick1);
    assert_eq!(cs[0].health.current_health, 98);
    assert_eq!(cs[0].health.hit_by, vec![11, 12]);
    assert!(r1[0].is_some() && r1[1].is_some());
    let tick2 = vec![Overlap { hitbox: enemy_hit(12, 1), target: player, offset: None }];
    let r2 = resolve_attacks(&mut cs, &tick2);
    assert_eq!(cs[0].health.current_health, 98);
    assert_eq!(r2, vec![None]);
}

#[test]
fn overlap_without_health_is_skipped() {
    let mut cs = vec![Combatant { entity: ent(1), health: Health::new(false, 3) }];
    let os = vec![Overlap { hitbox: friendly_hit(5, 1), target: ent(9), offset: None }];
    let r = resolve_attacks(&mut cs, &os);
    assert_eq!(r, vec![None]);
    assert_eq!(cs[0].health.current_health, 3);
}

#[test]
fn one_swing_hits_several_targets() {
    let mut cs = vec![
        Combatant { entity: ent(1), health: Health::new(false, 3) },
        Combatant { entity: ent(2), health: Health::new(false, 3) },
    ];
    let os = vec![
        Overlap { hitbox: friendly_hit(5, 1), target: ent(1), offset: Some(Vec2 { x: -4, y: 1 }) },
        Overlap { hitbox: friendly_hit(5, 1), target: ent(2), offset: None },
    ];
    let r = resolve_attacks(&mut cs, &os);
    assert_eq!(cs[0].health.current_health, 2);
    assert_eq!(cs[1].health.current_health, 2);
    assert_eq!(r[0], Some(HitReport { target: ent(1), knockback: Some(Vec2 { x: 60, y: 0 }) }));
    assert_eq!(r[1], Some(HitReport { target: ent(2), knockback: None }));
}

#[test]
fn death_sweep_lists_dead_entities() {
    let mut dead = Health::new(true, 1);
    dead.take_hit(&enemy_hit(1, 1));
    let cs = vec![
        Combatant { entity: ent(1), health: Health::new(false, 3) },
        Combatant { entity: ent(2), health: dead },
    ];
    assert_eq!(dead_entities(&cs), vec![ent(2)]);
}

#[test]
fn struck_actors_stagger() {
    let w = ent(4);
    let mut g = Goblin::spawned(w);
    g.stagger();
    assert_eq!(g.state, GoblinState::Hit(w, 500));
    let mut p = Player::spawned();
    p.stagger();
    assert_eq!(p.state, PlayerState::Hit(500));
}

#[test]
fn health_bars_scale_with_hit_points() {
    let bars = HealthDisplaySystem.run(Some(16), Some(32));
    assert_eq!(bars.full_health, Some(128));
    assert_eq!(bars.full_pylon, Some(128));
    let none = HealthDisplaySystem.run(None, Some(3));
    assert_eq!(none.full_health, None);
    assert_eq!(none.full_pylon, Some(12));
}

#[test]
fn dead_pylon_and_its_sensors_leave_physics_next_tick() {
    let pylon = ent(1);
    let sensor = ent(2);
    let player = ent(3);
    let mut table = Lifecycle::new();
    table.record_body(pylon, oid(0), oid(0));
    table.record_body(player, oid(1), oid(1));
    let desc = ColliderDesc { shape: Shape::Ball(4), sensor: true, offset: Vec2 { x: 0, y: 0 } };
    table.add_sensor(sensor, pylon, AttachedSensor::new(desc));
    let (i, body) = table.next_sensor_to_attach().unwrap();
    assert_eq!(body, oid(0));
    table.record_sensor(i, body, oid(2));

    let mut cs = vec![Combatant { entity: pylon, health: Health::new(true, 1) }];
    let os = vec![Overlap { hitbox: enemy_hit(9, 1), target: pylon, offset: None }];
    resolve_attacks(&mut cs, &os);
    assert_eq!(dead_entities(&cs), vec![pylon]);

    // The pylon was deleted; its sensor child is still alive in the store.
    let alive = vec![sensor, player];
    let removed = table.reconcile(&alive);
    assert_eq!(removed.bodies, vec![oid(0)]);
    assert_eq!(removed.colliders, vec![oid(0), oid(2)]);
    assert!(table.handle_of(pylon).is_none());
    assert!(table.handle_of(player).is_some());
    assert!(table.get_sensors(pylon).is_empty());
    assert!(table.sensors.is_empty());
}

#[test]
fn same_overlaps_on_a_later_tick_change_nothing() {
    let mut cs = vec![
        Combatant { entity: ent(1), health: Health::new(false, 5) },
        Combatant { entity: ent(2), health: Health::new(true, 5) },
    ];
    let os = vec![
        Overlap { hitbox: friendly_hit(3, 2), target: ent(1), offset: None },
        Overlap { hitbox: enemy_hit(4, 1), target: ent(2), offset: None },
        Overlap { hitbox: friendly_hit(5, 1), target: ent(2), offset: None },
    ];
    resolve_attacks(&mut cs, &os);
    assert_eq!(cs[0].health.current_health, 3);
    assert_eq!(cs[1].health.current_health, 4);
    for _ in 0..3 {
        let r = resolve_attacks(&mut cs, &os);
        assert_eq!(r, vec![None, None, None]);
    }
    assert_eq!(cs[0].health.current_health, 3);
    assert_eq!(cs[0].health.hit_by, vec![3]);
    assert_eq!(cs[1].health.current_health, 4);
    assert_eq!(cs[1].health.hit_by, vec![4]);
}

#[test]
fn knocked_back_actors_stagger_others_do_not() {
    let w = ent(9);
    let mut goblins = vec![(ent(1), Goblin::spawned(w)), (ent(2), Goblin::spawned(w))];
    let mut players = vec![(ent(3), Player::spawned())];
    let reports = vec![
        Some(HitReport { target: ent(1), knockback: Some(Vec2 { x: 60, y: 0 }) }),
        Some(HitReport { target: ent(3), knockback: None }),
        None,
    ];
    stagger_goblins(&mut goblins, &reports);
    stagger_players(&mut players, &reports);
    assert_eq!(goblins[0].1.state, GoblinState::Hit(w, 500));
    assert_eq!(goblins[1].1.state, GoblinState::Idling(w, 5000));
    assert_eq!(players[0].1.state, PlayerState::Moving);
    let reports = vec![Some(HitReport { target: ent(3), knockback: Some(Vec2 { x: 0, y: -60 }) })];
    stagger_players(&mut players, &reports);
    assert_eq!(players[0].1.state, PlayerState::Hit(500));
}
