use asteroid_kernel::despawn::{despawn_dead_entities, despawn_far_away_components};
use asteroid_kernel::{Bundle, Commands, Entity, Health, Role, Transform, Vec3, World};

const UNIT: i64 = 1_000_000_000;

fn at(role: Role, x: i64, z: i64, health: Option<i64>) -> Bundle {
    Bundle {
        role,
        transform: Transform { translation: Vec3::new(x, 0, z), heading: Vec3::new(0, 0, 1000) },
        velocity: None,
        acceleration: None,
        collider: None,
        health: health.map(Health::new),
        damage: None,
    }
}

fn ids(world: &World) -> Vec<Entity> {
    world.entities.iter().map(|e| e.id).collect()
}

#[test]
fn projectile_far_away_is_removed() {
    let mut world = World::new();
    let far = world.spawn(at(Role::SpaceshipMissile, 150 * UNIT, 0, None)).unwrap();
    let near = world.spawn(at(Role::SpaceshipMissile, 50 * UNIT, 0, None)).unwrap();
    let mut cmds = Commands::new();
    despawn_far_away_components(&world, Role::SpaceshipMissile, &mut cmds);
    assert_eq!(cmds.despawns, vec![far]);
    world.apply(&cmds);
    assert_eq!(ids(&world), vec![near]);
}

#[test]
fn distance_rule_uses_euclidean_distance() {
    let mut world = World::new();
    let diagonal = world.spawn(at(Role::Asteroid, 80 * UNIT, 80 * UNIT, None)).unwrap();
    let edge = world.spawn(at(Role::Asteroid, 100 * UNIT, 0, None)).unwrap();
    let mut cmds = Commands::new();
    despawn_far_away_components(&world, Role::Asteroid, &mut cmds);
    assert_eq!(cmds.despawns, vec![diagonal]);
    world.apply(&cmds);
    assert_eq!(ids(&world), vec![edge]);
}

#[test]
fn craft_is_exempt_from_distance_rule() {
    let mut world = World::new();
    world.spawn(at(Role::Spaceship, 150 * UNIT, 0, None)).unwrap();
    let mut cmds = Commands::new();
    despawn_far_away_components(&world, Role::Asteroid, &mut cmds);
    despawn_far_away_components(&world, Role::SpaceshipMissile, &mut cmds);
    assert!(cmds.despawns.is_empty());
}

#[test]
fn zero_health_is_removed_positive_is_not() {
    let mut world = World::new();
    let zero = world.spawn(at(Role::Asteroid, 0, 0, Some(0))).unwrap();
    let tenth = world.spawn(at(Role::Asteroid, 0, 0, Some(100))).unwrap();
    let negative = world.spawn(at(Role::Spaceship, 0, 0, Some(-5))).unwrap();
    let none = world.spawn(at(Role::SpaceshipMissile, 0, 0, None)).unwrap();
    let mut cmds = Commands::new();
    despawn_dead_entities(&world, &mut cmds);
    assert_eq!(cmds.despawns, vec![zero, negative]);
    world.apply(&cmds);
    assert_eq!(ids(&world), vec![tenth, none]);
}

#[test]
fn two_removals_of_one_id_remove_it_once() {
    let mut world = World::new();
    let a = world.spawn(at(Role::Asteroid, 0, 0, Some(0))).unwrap();
    let b = world.spawn(at(Role::Asteroid, 0, 0, Some(0))).unwrap();
    let mut cmds = Commands::new();
    cmds.despawn(a);
    cmds.despawn(a);
    world.apply(&cmds);
    assert_eq!(ids(&world), vec![b]);
    let mut again = Commands::new();
    again.despawn(a);
    world.apply(&again);
    assert_eq!(ids(&world), vec![b]);
}

#[test]
fn spawned_ids_are_fresh() {
    let mut world = World::new();
    let a = world.spawn(at(Role::Asteroid, 0, 0, None)).unwrap();
    let mut cmds = Commands::new();
    cmds.despawn(a);
    world.apply(&cmds);
    let b = world.spawn(at(Role::Asteroid, 0, 0, None)).unwrap();
    assert_ne!(a, b);
    assert_eq!(b, Entity { index: 1 });
}

#[test]
fn shield_tag_is_queued_and_applied() {
    let mut world = World::new();
    let a = world.spawn(at(Role::Spaceship, 0, 0, None)).unwrap();
    let mut cmds = Commands::new();
    cmds.insert_shield(a);
    assert!(!world.get(a).unwrap().shield);
    world.apply(&cmds);
    assert!(world.get(a).unwrap().shield);
}
