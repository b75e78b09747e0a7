//! Simulation kernel of a small arcade game: a player craft, drifting
//! asteroids and missiles, with motion, collision, damage, despawn and a
//! game-state machine gating the gameplay phases.
//!
//! All quantities are integers in fixed units:
//! positions in nano-units, velocities in micro-units per second,
//! accelerations in milli-units per second squared, headings as unit vectors
//! scaled by 1000, health and damage in milli-points, and time in
//! milliseconds. With these units `position += velocity * dt` and
//! `velocity += acceleration * dt` need no division.

pub mod asteroid;
pub mod collision_detection;
pub mod despawn;
pub mod game;
pub mod math;
pub mod movement;
pub mod schedule;
pub mod spaceship;
pub mod state;
pub mod world;

pub use asteroid::{AsteroidDraw, AsteroidPlugin, SpawnTimer};
pub use collision_detection::{CollisionDetectionPlugin, CollisionEvent};
pub use despawn::DespawnPlugin;
pub use game::{App, Plugins};
pub use math::Vec3;
pub use movement::MovementPlugin;
pub use schedule::{InGameSet, SchedulePlugin};
pub use spaceship::{Controls, SpaceshipPlugin, Steering};
pub use state::{GameState, StatePlugin};
pub use world::{
    Acceleration, Bundle, Collider, CollisionDamage, Commands, Entity, EntityRecord, Health, Role,
    Transform, Velocity, World,
};
