use vstd::prelude::*;

use crate::game::{App, AppView, Plugins};

use crate::math::{add_scaled_spec, scaled_spec, Vec3};
use crate::state::GameState;
use crate::world::{
    Acceleration, Bundle, Collider, CollisionDamage, Commands, Entity, EntityRecord, Health, Role,
    Transform, Velocity, World,
};

verus! {

/// Where the craft appears: 20 units behind the origin.
pub const STARTING_Z: i64 = -20_000_000_000;
/// Craft speed: velocity is the heading times this (25 units per second).
pub const SPACESHIP_TRANSLATION_SPEED: i64 = 25_000;
/// Turn and roll rate in micro-radians per millisecond (2.5 radians per second).
pub const SPACESHIP_ROTATION_SPEED: i64 = 2_500;
pub const SPACESHIP_ROLL_SPEED: i64 = 2_500;
pub const SPACESHIP_RADIUS: u64 = 3_000_000_000;
pub const SPACESHIP_HEALTH: i64 = 100_000;
pub const SPACESHIP_COLLISION_DAMAGE: i64 = 100_000;
/// Missile speed: velocity is the heading times this (50 units per second).
pub const MISSILE_SPEED: i64 = 50_000;
/// Missile spawn offset: the heading times this (10 units ahead).
pub const MISSILE_FORWARD_SPAWN_RANGE: i64 = 10_000_000;
pub const MISSILE_RADIUS: u64 = 1_000_000_000;
pub const MISSILE_HEALTH: i64 = 1_000;
pub const MISSILE_COLLISION_DAMAGE: i64 = 10_000;
/// Heading of an unrotated transform, scaled by 1000.
pub const DEFAULT_HEADING_Z: i64 = 1_000;

/// Logical control signals of one frame.
#[derive(Clone, Copy, Debug, PartialEq, Eq, Structural)]
pub struct Controls {
    pub forward: bool,
    pub backward: bool,
    pub yaw_left: bool,
    pub yaw_right: bool,
    pub roll_left: bool,
    pub roll_right: bool,
    /// True only on the frame on which fire is pressed, not while it is held.
    pub fire_just_pressed: bool,
    pub shield: bool,
    pub pause_just_pressed: bool,
}

/// Rotation asked of the craft this frame, in micro-radians: `yaw` about the
/// vertical axis, `roll` about the craft's own length.
#[derive(Clone, Copy, Debug, PartialEq, Eq, Structural)]
pub struct Steering {
    pub yaw: i64,
    pub roll: i64,
}

pub open spec fn default_heading() -> Vec3 {
    Vec3 { x: 0, y: 0, z: DEFAULT_HEADING_Z }
}

pub open spec fn spaceship_bundle() -> Bundle {
    Bundle {
        role: Role::Spaceship,
        transform: Transform {
            translation: Vec3 { x: 0, y: 0, z: STARTING_Z },
            heading: default_heading(),
        },
        velocity: Some(Velocity { value: Vec3 { x: 0, y: 0, z: 0 } }),
        acceleration: Some(Acceleration { value: Vec3 { x: 0, y: 0, z: 0 } }),
        collider: Some(Collider { radius: SPACESHIP_RADIUS }),
        health: Some(Health { value: SPACESHIP_HEALTH }),
        damage: Some(CollisionDamage { value: SPACESHIP_COLLISION_DAMAGE }),
    }
}

/// The missile fired from a craft at `t`: ahead of it, flying along its heading.
pub open spec fn missile_bundle(t: Transform) -> Bundle {
    Bundle {
        role: Role::SpaceshipMissile,
        transform: Transform {
            translation: add_scaled_spec(t.translation, t.heading, MISSILE_FORWARD_SPAWN_RANGE as int),
            heading: default_heading(),
        },
        velocity: Some(Velocity { value: scaled_spec(t.heading, MISSILE_SPEED as int) }),
        acceleration: Some(Acceleration { value: Vec3 { x: 0, y: 0, z: 0 } }),
        collider: Some(Collider { radius: MISSILE_RADIUS }),
        health: Some(Health { value: MISSILE_HEALTH }),
        damage: Some(CollisionDamage { value: MISSILE_COLLISION_DAMAGE }),
    }
}

/// Index `i` holds the one craft of the world.
pub open spec fn sole_craft(es: Seq<EntityRecord>, i: int) -> bool {
    &&& 0 <= i < es.len()
    &&& es[i].role == Role::Spaceship
    &&& forall|j: int| 0 <= j < es.len() && es[j].role == Role::Spaceship ==> j == i
}

/// The index of the one craft, when there is exactly one.
pub open spec fn single_craft(es: Seq<EntityRecord>) -> Option<int> {
    if exists|i: int| sole_craft(es, i) {
        Some(choose|i: int| sole_craft(es, i))
    } else {
        None
    }
}

pub open spec fn has_craft(es: Seq<EntityRecord>) -> bool {
    exists|i: int| 0 <= i < es.len() && es[i].role == Role::Spaceship
}

pub open spec fn movement_amount(c: Controls) -> int {
    if c.backward {
        -SPACESHIP_TRANSLATION_SPEED
    } else if c.forward {
        SPACESHIP_TRANSLATION_SPEED as int
    } else {
        0
    }
}

pub open spec fn steering_spec(c: Controls, dt: int) -> Steering {
    Steering {
        yaw: (if c.yaw_right {
            -SPACESHIP_ROTATION_SPEED * dt
        } else if c.yaw_left {
            SPACESHIP_ROTATION_SPEED * dt
        } else {
            0
        }) as i64,
        roll: (if c.roll_left {
            -SPACESHIP_ROLL_SPEED * dt
        } else if c.roll_right {
            SPACESHIP_ROLL_SPEED * dt
        } else {
            0
        }) as i64,
    }
}

/// The world after the movement controls: the one craft, if there is one,
/// moves along its heading at the chosen speed.
pub open spec fn steer_spec(es: Seq<EntityRecord>, c: Controls) -> Seq<EntityRecord> {
    match single_craft(es) {
        Some(i) => es.update(
            i,
            EntityRecord {
                velocity: Some(
                    Velocity { value: scaled_spec(es[i].transform.heading, movement_amount(c)) },
                ),
                ..es[i]
            },
        ),
        None => es,
    }
}

/// `prev` with the missile that the fire control asks for appended.
pub open spec fn weapon_spawns(es: Seq<EntityRecord>, c: Controls, prev: Seq<Bundle>) -> Seq<Bundle> {
    match single_craft(es) {
        Some(i) => if c.fire_just_pressed {
            prev.push(missile_bundle(es[i].transform))
        } else {
            prev
        },
        None => prev,
    }
}

/// `prev` with the shield tag that the shield control asks for appended.
pub open spec fn shield_requests(es: Seq<EntityRecord>, c: Controls, prev: Seq<Entity>) -> Seq<Entity> {
    match single_craft(es) {
        Some(i) => if c.shield {
            prev.push(es[i].id)
        } else {
            prev
        },
        None => prev,
    }
}

/// Fire is edge-triggered: a frame without a fire press queues no missile,
/// however long the key is held, and a press queues at most one.
pub proof fn one_missile_per_press(es: Seq<EntityRecord>, c: Controls, prev: Seq<Bundle>)
    ensures
        !c.fire_just_pressed ==> weapon_spawns(es, c, prev) == prev,
        weapon_spawns(es, c, prev).len() <= prev.len() + 1,
{
}

/// Index of the one craft, if there is exactly one.
pub fn find_single_craft(world: &World) -> (r: Option<usize>)
    ensures
        r matches Some(i) ==> single_craft(world@.entities) == Some(i as int),
        r is None ==> single_craft(world@.entities) is None,
{
    let ghost es = world@.entities;
    let mut found: Option<usize> = None;
    let mut i: usize = 0;
    while i < world.entities.len()
        invariant
            es == world@.entities,
            i <= es.len(),
            found is None ==> forall|j: int| 0 <= j < i ==> es[j].role != Role::Spaceship,
            found matches Some(f) ==> f < i && es[f as int].role == Role::Spaceship && forall|
                j: int,
            | 0 <= j < i && es[j].role == Role::Spaceship ==> j == f,
        decreases es.len() - i,
    {
        if world.entities[i].role == Role::Spaceship {
            if found.is_some() {
                proof {
                    let f = found->0 as int;
                    assert forall|k: int| !sole_craft(es, k) by {
                        if sole_craft(es, k) {
                            assert(k == f);
                            assert(k == i);
                        }
                    }
                }
                return None;
            }
            found = Some(i);
        }
        i += 1;
    }
    match found {
        Some(f) => {
            assert(sole_craft(es, f as int));
            proof {
                let k = choose|k: int| sole_craft(es, k);
                assert(k == f);
            }
            Some(f)
        },
        None => {
            assert forall|k: int| !sole_craft(es, k) by {}
            None
        },
    }
}

/// Queues a fresh craft at the starting position.
pub fn spawn_spaceship(commands: &mut Commands)
    ensures
        final(commands).spawns@ == old(commands).spawns@.push(spaceship_bundle()),
        final(commands).despawns@ == old(commands).despawns@,
        final(commands).shields@ == old(commands).shields@,
{
    let b = Bundle {
        role: Role::Spaceship,
        transform: Transform {
            translation: Vec3::new(0, 0, STARTING_Z),
            heading: Vec3::new(0, 0, DEFAULT_HEADING_Z),
        },
        velocity: Some(Velocity::new(Vec3::zero())),
        acceleration: Some(Acceleration::new(Vec3::zero())),
        collider: Some(Collider::new(SPACESHIP_RADIUS)),
        health: Some(Health::new(SPACESHIP_HEALTH)),
        damage: Some(CollisionDamage::new(SPACESHIP_COLLISION_DAMAGE)),
    };
    commands.spawn(b);
}

/// Sets the craft's velocity from the thrust controls and returns the turn
/// and roll asked for over `dt_ms`; the turn itself is applied by the caller
/// through `World::set_heading`.
pub fn spaceship_movement_controls(world: &mut World, controls: &Controls, dt_ms: u32) -> (s: Steering)
    requires
        old(world)@.wf(),
    ensures
        final(world)@.entities == steer_spec(old(world)@.entities, *controls),
        final(world)@.contacts == old(world)@.contacts,
        final(world)@.next_index == old(world)@.next_index,
        final(world)@.wf(),
        s == (if single_craft(old(world)@.entities) is Some {
            steering_spec(*controls, dt_ms as int)
        } else {
            Steering { yaw: 0, roll: 0 }
        }),
{
    let i = match find_single_craft(world) {
        Some(i) => i,
        None => {
            return Steering { yaw: 0, roll: 0 };
        },
    };
    let movement: i64 = if controls.backward {
        -SPACESHIP_TRANSLATION_SPEED
    } else if controls.forward {
        SPACESHIP_TRANSLATION_SPEED
    } else {
        0
    };
    let dt = dt_ms as i64;
    assert(0 <= SPACESHIP_ROTATION_SPEED * dt <= 2_500 * 0xffff_ffffi64) by (nonlinear_arith)
        requires 0 <= dt <= 0xffff_ffff, SPACESHIP_ROTATION_SPEED == 2_500;
    assert(0 <= SPACESHIP_ROLL_SPEED * dt <= 2_500 * 0xffff_ffffi64) by (nonlinear_arith)
        requires 0 <= dt <= 0xffff_ffff, SPACESHIP_ROLL_SPEED == 2_500;
    let yaw: i64 = if controls.yaw_right {
        -(SPACESHIP_ROTATION_SPEED * dt)
    } else if controls.yaw_left {
        SPACESHIP_ROTATION_SPEED * dt
    } else {
        0
    };
    let roll: i64 = if controls.roll_left {
        -(SPACESHIP_ROLL_SPEED * dt)
    } else if controls.roll_right {
        SPACESHIP_ROLL_SPEED * dt
    } else {
        0
    };
    let e = world.entities[i];
    let v = Velocity { value: e.transform.heading.scaled(movement) };
    world.entities.set(i, EntityRecord { velocity: Some(v), ..e });
    assert(world@.entities =~= steer_spec(old(world)@.entities, *controls));
    Steering { yaw, roll }
}

/// On a fire press (an edge, not a held key), queues one missile ahead of
/// the one craft: one missile per press.
pub fn spaceship_weapon_controls(world: &World, controls: &Controls, commands: &mut Commands)
    ensures
        final(commands).spawns@ == weapon_spawns(world@.entities, *controls, old(commands).spawns@),
        final(commands).despawns@ == old(commands).despawns@,
        final(commands).shields@ == old(commands).shields@,
{
    if controls.fire_just_pressed {
        let i = match find_single_craft(world) {
            Some(i) => i,
            None => {
                return ;
            },
        };
        let t = world.entities[i].transform;
        let b = Bundle {
            role: Role::SpaceshipMissile,
            transform: Transform {
                translation: t.translation.add_scaled(&t.heading, MISSILE_FORWARD_SPAWN_RANGE),
                heading: Vec3::new(0, 0, DEFAULT_HEADING_Z),
            },
            velocity: Some(Velocity::new(t.heading.scaled(MISSILE_SPEED))),
            acceleration: Some(Acceleration::new(Vec3::zero())),
            collider: Some(Collider::new(MISSILE_RADIUS)),
            health: Some(Health::new(MISSILE_HEALTH)),
            damage: Some(CollisionDamage::new(MISSILE_COLLISION_DAMAGE)),
        };
        commands.spawn(b);
    }
}

/// While the shield control is held, queues the shield tag on the one craft.
pub fn spaceship_shield_controls(world: &World, controls: &Controls, commands: &mut Commands)
    ensures
        final(commands).shields@ == shield_requests(world@.entities, *controls, old(commands).shields@),
        final(commands).spawns@ == old(commands).spawns@,
        final(commands).despawns@ == old(commands).despawns@,
{
    let i = match find_single_craft(world) {
        Some(i) => i,
        None => {
            return ;
        },
    };
    if controls.shield {
        commands.insert_shield(world.entities[i].id);
    }
}

/// Asks for `GameOver` once no craft is left.
pub fn spaceship_destroyed(world: &World, next_state: &mut Option<GameState>)
    ensures
        *final(next_state) == (if has_craft(world@.entities) {
            *old(next_state)
        } else {
            Some(GameState::GameOver)
        }),
{
    let mut i: usize = 0;
    while i < world.entities.len()
        invariant
            i <= world.entities.len(),
            forall|j: int| 0 <= j < i ==> world@.entities[j].role != Role::Spaceship,
        decreases world.entities.len() - i,
    {
        if world.entities[i].role == Role::Spaceship {
            return ;
        }
        i += 1;
    }
    *next_state = Some(GameState::GameOver);
}

/// Installs the craft: spawned at startup and on entering `GameOver`, its controls in the input phase, and the lost-craft check in the update phase.
pub struct SpaceshipPlugin;

impl SpaceshipPlugin {
    pub fn build(&self, app: &mut App)
        requires
            old(app)@.wf(),
        ensures
            final(app)@ == (AppView { plugins: Plugins { spaceship: true, ..old(app)@.plugins }, ..old(app)@ }),
            final(app)@.wf(),
    {
        app.plugins.spaceship = true;
    }
}

} // verus!
