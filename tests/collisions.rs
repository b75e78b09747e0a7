use asteroid_kernel::collision_detection::{
    apply_collision_damage, collision_detection, handle_collisions,
};
use asteroid_kernel::{
    Bundle, Collider, CollisionDamage, CollisionEvent, Entity, Health, Role, Transform, Vec3,
    World,
};

const UNIT: i64 = 1_000_000_000;

fn body(role: Role, x: i64, radius: u64, health: Option<i64>, damage: Option<i64>) -> Bundle {
    Bundle {
        role,
        transform: Transform { translation: Vec3::new(x, 0, 0), heading: Vec3::new(0, 0, 1000) },
        velocity: None,
        acceleration: None,
        collider: Some(Collider::new(radius)),
        health: health.map(Health::new),
        damage: damage.map(CollisionDamage::new),
    }
}

fn overlaps_of(world: &World, id: Entity) -> Vec<Entity> {
    world.overlaps(id)
}

#[test]
fn hazard_and_projectile_overlap_both_ways() {
    let mut world = World::new();
    let hazard = world.spawn(body(Role::Asteroid, 0, 2 * UNIT as u64, None, None)).unwrap();
    let missile = world
        .spawn(body(Role::SpaceshipMissile, 5 * UNIT / 2, UNIT as u64, None, None))
        .unwrap();
    collision_detection(&mut world);
    assert_eq!(overlaps_of(&world, hazard), vec![missile]);
    assert_eq!(overlaps_of(&world, missile), vec![hazard]);
}

#[test]
fn distant_projectile_does_not_overlap() {
    let mut world = World::new();
    let hazard = world.spawn(body(Role::Asteroid, 0, 2 * UNIT as u64, None, None)).unwrap();
    let missile =
        world.spawn(body(Role::SpaceshipMissile, 10 * UNIT, UNIT as u64, None, None)).unwrap();
    collision_detection(&mut world);
    assert!(overlaps_of(&world, hazard).is_empty());
    assert!(overlaps_of(&world, missile).is_empty());
}

#[test]
fn touching_spheres_do_not_overlap() {
    let mut world = World::new();
    let a = world.spawn(body(Role::Asteroid, 0, 2 * UNIT as u64, None, None)).unwrap();
    let b = world.spawn(body(Role::SpaceshipMissile, 3 * UNIT, UNIT as u64, None, None)).unwrap();
    collision_detection(&mut world);
    assert!(overlaps_of(&world, a).is_empty());
    assert!(overlaps_of(&world, b).is_empty());
}

#[test]
fn overlap_lists_are_rebuilt_each_phase() {
    let mut world = World::new();
    let a = world.spawn(body(Role::Asteroid, 0, 2 * UNIT as u64, None, None)).unwrap();
    let b = world.spawn(body(Role::SpaceshipMissile, UNIT, UNIT as u64, None, None)).unwrap();
    collision_detection(&mut world);
    assert_eq!(overlaps_of(&world, a), vec![b]);
    world.entities[1].transform.translation = Vec3::new(50 * UNIT, 0, 0);
    collision_detection(&mut world);
    assert!(overlaps_of(&world, a).is_empty());
    assert!(overlaps_of(&world, b).is_empty());
}

#[test]
fn no_entity_overlaps_itself() {
    let mut world = World::new();
    let ids: Vec<Entity> = (0..4)
        .map(|k| world.spawn(body(Role::Asteroid, k * UNIT, 2 * UNIT as u64, None, None)).unwrap())
        .collect();
    collision_detection(&mut world);
    for id in &ids {
        assert!(!overlaps_of(&world, *id).contains(id));
    }
    assert_eq!(overlaps_of(&world, ids[1]), vec![ids[0], ids[2], ids[3]]);
}

#[test]
fn overlapping_asteroids_never_damage_each_other() {
    let mut world = World::new();
    let a = world.spawn(body(Role::Asteroid, 0, 2 * UNIT as u64, Some(5_000), Some(3_000))).unwrap();
    let b = world.spawn(body(Role::Asteroid, UNIT, 2 * UNIT as u64, Some(5_000), Some(3_000))).unwrap();
    collision_detection(&mut world);
    assert_eq!(overlaps_of(&world, a), vec![b]);
    let evs = handle_collisions(&world, Role::Asteroid);
    assert!(evs.is_empty());
    apply_collision_damage(&mut world, &evs);
    assert_eq!(world.get(a).unwrap().health, Some(Health::new(5_000)));
    assert_eq!(world.get(b).unwrap().health, Some(Health::new(5_000)));
}

#[test]
fn one_notice_per_entity_per_frame() {
    let mut world = World::new();
    let ship = world
        .spawn(body(Role::Spaceship, 0, 3 * UNIT as u64, Some(100_000), Some(100_000)))
        .unwrap();
    let mut hazards = Vec::new();
    for k in 1..4 {
        hazards.push(
            world.spawn(body(Role::Asteroid, k * UNIT, UNIT as u64, Some(1_000), Some(7_000))).unwrap(),
        );
    }
    collision_detection(&mut world);
    assert_eq!(overlaps_of(&world, ship), hazards);
    let evs = handle_collisions(&world, Role::Spaceship);
    assert_eq!(evs, vec![CollisionEvent::new(ship, hazards[0])]);
    apply_collision_damage(&mut world, &evs);
    assert_eq!(world.get(ship).unwrap().health, Some(Health::new(93_000)));
}

#[test]
fn resolver_skips_same_role_overlaps_first() {
    let mut world = World::new();
    let m1 = world.spawn(body(Role::SpaceshipMissile, 0, UNIT as u64, Some(1_000), Some(10_000))).unwrap();
    let m2 = world.spawn(body(Role::SpaceshipMissile, UNIT / 2, UNIT as u64, Some(1_000), Some(10_000))).unwrap();
    let rock = world.spawn(body(Role::Asteroid, UNIT, UNIT as u64, Some(4_000), Some(2_000))).unwrap();
    collision_detection(&mut world);
    assert_eq!(overlaps_of(&world, m1), vec![m2, rock]);
    let evs = handle_collisions(&world, Role::SpaceshipMissile);
    assert_eq!(evs, vec![CollisionEvent::new(m1, rock), CollisionEvent::new(m2, rock)]);
    let rock_evs = handle_collisions(&world, Role::Asteroid);
    assert_eq!(rock_evs, vec![CollisionEvent::new(rock, m1)]);
    apply_collision_damage(&mut world, &evs);
    apply_collision_damage(&mut world, &rock_evs);
    assert_eq!(world.get(m1).unwrap().health, Some(Health::new(-1_000)));
    assert_eq!(world.get(m2).unwrap().health, Some(Health::new(-1_000)));
    assert_eq!(world.get(rock).unwrap().health, Some(Health::new(-6_000)));
}

#[test]
fn damage_without_fragments_is_skipped() {
    let mut world = World::new();
    let a = world.spawn(body(Role::Spaceship, 0, UNIT as u64, Some(10_000), None)).unwrap();
    let b = world.spawn(body(Role::Asteroid, UNIT, UNIT as u64, None, None)).unwrap();
    let gone = Entity { index: 99 };
    let evs = vec![
        CollisionEvent::new(a, b),
        CollisionEvent::new(b, a),
        CollisionEvent::new(a, gone),
    ];
    apply_collision_damage(&mut world, &evs);
    assert_eq!(world.get(a).unwrap().health, Some(Health::new(10_000)));
    assert_eq!(world.get(b).unwrap().health, None);
}

#[test]
fn damage_saturates_at_the_integer_limit() {
    let mut world = World::new();
    let a = world.spawn(body(Role::Spaceship, 0, UNIT as u64, Some(i64::MIN + 5), None)).unwrap();
    let b = world.spawn(body(Role::Asteroid, UNIT, UNIT as u64, None, Some(100))).unwrap();
    apply_collision_damage(&mut world, &vec![CollisionEvent::new(a, b)]);
    assert_eq!(world.get(a).unwrap().health, Some(Health::new(i64::MIN)));
}
