use asteroid_kernel::asteroid::{asteroid_from, spawn_asteroid};
use asteroid_kernel::math::{closer_than, farther_than, isqrt, sat_add, sat_mul, sat_sub};
use asteroid_kernel::movement::{apply_acceleration, apply_velocity};
use asteroid_kernel::spaceship::{
    spaceship_destroyed, spaceship_movement_controls, spaceship_shield_controls,
    spaceship_weapon_controls, spawn_spaceship,
};
use asteroid_kernel::state::{game_state_input_events, transition_to_in_game};
use asteroid_kernel::{
    Acceleration, App, AsteroidDraw, Bundle, Commands, Controls, GameState,
    MovementPlugin, Role, SpawnTimer, Steering, Transform, Vec3, Velocity, World,
};

const UNIT: i64 = 1_000_000_000;

fn idle() -> Controls {
    Controls {
        forward: false,
        backward: false,
        yaw_left: false,
        yaw_right: false,
        roll_left: false,
        roll_right: false,
        fire_just_pressed: false,
        shield: false,
        pause_just_pressed: false,
    }
}

fn pause() -> Controls {
    Controls { pause_just_pressed: true, ..idle() }
}

fn crafts(app: &App) -> usize {
    app.world.entities.iter().filter(|e| e.role == Role::Spaceship).count()
}

fn mover(v: Vec3, a: Option<Vec3>) -> Bundle {
    Bundle {
        role: Role::Asteroid,
        transform: Transform { translation: Vec3::new(0, 0, 0), heading: Vec3::new(0, 0, 1000) },
        velocity: Some(Velocity::new(v)),
        acceleration: a.map(Acceleration::new),
        collider: None,
        health: None,
        damage: None,
    }
}

#[test]
fn motion_applies_acceleration_then_velocity() {
    let mut world = World::new();
    let id = world.spawn(mover(Vec3::new(1_000_000, 0, -2_000_000), Some(Vec3::new(500, 0, 0)))).unwrap();
    apply_acceleration(&mut world, 100);
    apply_velocity(&mut world, 100);
    let e = world.get(id).unwrap();
    assert_eq!(e.velocity.unwrap().value, Vec3::new(1_050_000, 0, -2_000_000));
    assert_eq!(e.transform.translation, Vec3::new(105_000_000, 0, -200_000_000));
}

#[test]
fn motion_without_acceleration_keeps_velocity() {
    let mut world = World::new();
    let id = world.spawn(mover(Vec3::new(0, 3_000, 0), None)).unwrap();
    apply_acceleration(&mut world, 16);
    apply_velocity(&mut world, 16);
    let e = world.get(id).unwrap();
    assert_eq!(e.velocity.unwrap().value, Vec3::new(0, 3_000, 0));
    assert_eq!(e.transform.translation, Vec3::new(0, 48_000, 0));
}

#[test]
fn saturating_helpers_clamp() {
    assert_eq!(sat_add(i64::MAX, 1), i64::MAX);
    assert_eq!(sat_sub(i64::MIN, 1), i64::MIN);
    assert_eq!(sat_mul(i64::MAX, -2), i64::MIN);
    assert_eq!(sat_mul(-7, 6), -42);
    assert_eq!(isqrt(0), 0);
    assert_eq!(isqrt(24), 4);
    assert_eq!(isqrt(25), 5);
    assert_eq!(isqrt(u64::MAX), 4_294_967_295);
    assert!(closer_than(&Vec3::new(0, 0, 0), &Vec3::new(3, 4, 0), 6));
    assert!(!closer_than(&Vec3::new(0, 0, 0), &Vec3::new(3, 4, 0), 5));
    assert!(farther_than(&Vec3::new(i64::MIN, 0, 0), 10));
    assert!(!farther_than(&Vec3::new(6, 8, 0), 10));
}

#[test]
fn timer_repeats_with_remainder() {
    let mut t = SpawnTimer::from_millis(1_000);
    assert!(!t.tick(400));
    assert!(!t.tick(400));
    assert!(t.tick(400));
    assert_eq!(t.elapsed_ms, 200);
    assert!(t.tick(2_900));
    assert_eq!(t.elapsed_ms, 100);
}

#[test]
fn asteroid_directions_are_normalised() {
    let d = AsteroidDraw { x: -3, z: 7, vx: 1_000_000, vz: 0, ax: 0, az: -500_000 };
    let b = asteroid_from(&d);
    assert_eq!(b.role, Role::Asteroid);
    assert_eq!(b.transform.translation, Vec3::new(-3, 0, 7));
    assert_eq!(b.velocity.unwrap().value, Vec3::new(5_000_000, 0, 0));
    assert_eq!(b.acceleration.unwrap().value, Vec3::new(0, 0, -1_000));
    let d2 = AsteroidDraw { x: 0, z: 0, vx: 300_000, vz: -400_000, ax: 0, az: 0 };
    let b2 = asteroid_from(&d2);
    assert_eq!(b2.velocity.unwrap().value, Vec3::new(3_000_000, 0, -4_000_000));
    assert_eq!(b2.acceleration.unwrap().value, Vec3::new(0, 0, 0));
    assert_eq!(b2.collider.unwrap().radius, 2_500_000_000);
}

#[test]
fn asteroid_spawns_only_when_timer_finishes() {
    let d = AsteroidDraw { x: 1, z: 2, vx: 0, vz: 1_000, ax: 1_000, az: 0 };
    let mut t = SpawnTimer::from_millis(1_000);
    let mut cmds = Commands::new();
    spawn_asteroid(&mut t, 999, &d, &mut cmds);
    assert!(cmds.spawns.is_empty());
    spawn_asteroid(&mut t, 1, &d, &mut cmds);
    assert_eq!(cmds.spawns, vec![asteroid_from(&d)]);
}

#[test]
fn random_draws_stay_in_range_and_vary() {
    let draws: Vec<AsteroidDraw> = (0..32).map(|_| AsteroidDraw::random()).collect();
    for d in &draws {
        assert!((-25 * UNIT..25 * UNIT).contains(&d.x));
        assert!((0..25 * UNIT).contains(&d.z));
        for c in [d.vx, d.vz, d.ax, d.az] {
            assert!((-1_000_000..1_000_000).contains(&c));
        }
    }
    assert!(draws.iter().any(|d| d.x != -25 * UNIT));
    assert!(draws.iter().any(|d| d.x != draws[0].x));
}

#[test]
fn craft_controls_set_velocity_and_steering() {
    let mut world = World::new();
    let mut cmds = Commands::new();
    spawn_spaceship(&mut cmds);
    world.apply(&cmds);
    let c = Controls { forward: true, yaw_left: true, roll_left: true, ..idle() };
    let s = spaceship_movement_controls(&mut world, &c, 10);
    assert_eq!(s, Steering { yaw: 25_000, roll: -25_000 });
    let ship = world.entities[0];
    assert_eq!(ship.velocity.unwrap().value, Vec3::new(0, 0, 25_000_000));
    let back = Controls { backward: true, forward: true, yaw_right: true, ..idle() };
    let s2 = spaceship_movement_controls(&mut world, &back, 10);
    assert_eq!(s2, Steering { yaw: -25_000, roll: 0 });
    assert_eq!(world.entities[0].velocity.unwrap().value, Vec3::new(0, 0, -25_000_000));
}

#[test]
fn fire_spawns_missile_ahead_of_craft() {
    let mut world = World::new();
    let mut cmds = Commands::new();
    spawn_spaceship(&mut cmds);
    world.apply(&cmds);
    let id = world.entities[0].id;
    world.set_heading(id, Vec3::new(1000, 0, 0));
    let mut shots = Commands::new();
    spaceship_weapon_controls(&world, &Controls { fire_just_pressed: true, ..idle() }, &mut shots);
    assert_eq!(shots.spawns.len(), 1);
    let m = shots.spawns[0];
    assert_eq!(m.role, Role::SpaceshipMissile);
    assert_eq!(m.transform.translation, Vec3::new(10 * UNIT, 0, -20 * UNIT));
    assert_eq!(m.velocity.unwrap().value, Vec3::new(50_000_000, 0, 0));
    assert_eq!(m.collider.unwrap().radius, 1_000_000_000);
    let mut none = Commands::new();
    spaceship_weapon_controls(&world, &idle(), &mut none);
    assert!(none.spawns.is_empty());
}

#[test]
fn held_fire_spawns_one_missile_per_press() {
    let mut app = App::game();
    let d = AsteroidDraw { x: 0, z: 0, vx: 0, vz: 0, ax: 0, az: 0 };
    app.update_with(&idle(), 1, &d);
    let missiles = |app: &App| app.world.entities.iter().filter(|e| e.role == Role::SpaceshipMissile).count();
    app.update_with(&Controls { fire_just_pressed: true, ..idle() }, 1, &d);
    assert_eq!(missiles(&app), 1);
    for _ in 0..5 {
        app.update_with(&idle(), 1, &d);
    }
    assert_eq!(missiles(&app), 1);
    app.update_with(&Controls { fire_just_pressed: true, ..idle() }, 1, &d);
    assert_eq!(missiles(&app), 2);
}

#[test]
fn shield_control_tags_the_craft() {
    let mut world = World::new();
    let mut cmds = Commands::new();
    spawn_spaceship(&mut cmds);
    world.apply(&cmds);
    let id = world.entities[0].id;
    let mut q = Commands::new();
    spaceship_shield_controls(&world, &Controls { shield: true, ..idle() }, &mut q);
    assert_eq!(q.shields, vec![id]);
}

#[test]
fn lost_craft_asks_for_game_over() {
    let world = World::new();
    let mut next = None;
    spaceship_destroyed(&world, &mut next);
    assert_eq!(next, Some(GameState::GameOver));
    let mut w2 = World::new();
    let mut cmds = Commands::new();
    spawn_spaceship(&mut cmds);
    w2.apply(&cmds);
    let mut next2 = Some(GameState::Paused);
    spaceship_destroyed(&w2, &mut next2);
    assert_eq!(next2, Some(GameState::Paused));
}

#[test]
fn pause_edge_toggles_state() {
    let mut next = None;
    game_state_input_events(&mut next, GameState::InGame, true);
    assert_eq!(next, Some(GameState::Paused));
    let mut next = None;
    game_state_input_events(&mut next, GameState::Paused, true);
    assert_eq!(next, Some(GameState::InGame));
    let mut next = None;
    game_state_input_events(&mut next, GameState::GameOver, true);
    assert_eq!(next, None);
    let mut next = Some(GameState::GameOver);
    game_state_input_events(&mut next, GameState::InGame, false);
    assert_eq!(next, Some(GameState::GameOver));
    transition_to_in_game(&mut next);
    assert_eq!(next, Some(GameState::InGame));
    assert_eq!(GameState::default(), GameState::InGame);
}

#[test]
fn first_frame_spawns_the_craft_and_an_asteroid() {
    let mut app = App::game();
    let d = AsteroidDraw { x: 5, z: 6, vx: 0, vz: 1_000, ax: 0, az: 1_000 };
    app.update_with(&idle(), 1_000, &d);
    assert_eq!(crafts(&app), 1);
    assert_eq!(app.world.len(), 2);
    let rock = app.world.entities[1];
    assert_eq!(rock.role, Role::Asteroid);
    // spawned in the input phase, then accelerated and moved in the update phase
    assert_eq!(rock.velocity.unwrap().value, Vec3::new(0, 0, 6_000_000));
    assert_eq!(rock.transform.translation, Vec3::new(5, 0, 6 + 6_000_000_000));
    assert_eq!(app.state, GameState::InGame);
}

#[test]
fn paused_frames_change_nothing() {
    let mut app = App::game();
    let c = Controls { forward: true, fire_just_pressed: true, ..idle() };
    app.update(&c, 16);
    app.update(&c, 16);
    app.update(&pause(), 16);
    app.update(&c, 16);
    assert_eq!(app.state, GameState::Paused);
    let frozen = app.world.entities.clone();
    for _ in 0..50 {
        app.update(&c, 100);
    }
    assert_eq!(app.world.entities, frozen);
    assert_eq!(app.state, GameState::Paused);
    app.update(&pause(), 16);
    app.update(&c, 16);
    assert_eq!(app.state, GameState::InGame);
    assert_ne!(app.world.entities, frozen);
}

#[test]
fn game_over_bounces_back_with_a_new_craft() {
    let mut app = App::game();
    app.update(&idle(), 16);
    let first = app.world.entities[0].id;
    app.world.entities[0].health = Some(asteroid_kernel::Health::new(0));
    app.update(&idle(), 16);
    assert_eq!(crafts(&app), 0);
    assert_eq!(app.next_state, Some(GameState::GameOver));
    app.update(&idle(), 16);
    assert_eq!(app.state, GameState::GameOver);
    assert_eq!(crafts(&app), 1);
    let second = app.world.entities.iter().find(|e| e.role == Role::Spaceship).unwrap().id;
    assert_ne!(first, second);
    app.update(&idle(), 16);
    assert_eq!(app.state, GameState::InGame);
    assert_eq!(crafts(&app), 1);
}

#[test]
fn plugins_decide_which_systems_run() {
    let mut app = App::new();
    MovementPlugin.build(&mut app);
    app.world.spawn(mover(Vec3::new(1_000, 0, 0), None)).unwrap();
    app.update(&pause(), 10);
    assert_eq!(app.world.len(), 1);
    assert_eq!(app.world.entities[0].transform.translation, Vec3::new(10_000, 0, 0));
    assert_eq!(app.state, GameState::InGame);
}
