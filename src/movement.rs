use vstd::prelude::*;

use crate::game::{App, AppView, Plugins};

use crate::math::add_scaled_spec;
use crate::world::{EntityRecord, Transform, Velocity, World};

verus! {

/// `velocity += acceleration * dt` for an entity that carries both.
pub open spec fn accelerated(e: EntityRecord, dt: int) -> EntityRecord {
    match (e.velocity, e.acceleration) {
        (Some(v), Some(a)) => EntityRecord {
            velocity: Some(Velocity { value: add_scaled_spec(v.value, a.value, dt) }),
            ..e
        },
        _ => e,
    }
}

/// `position += velocity * dt` for an entity that carries a velocity.
pub open spec fn moved(e: EntityRecord, dt: int) -> EntityRecord {
    match e.velocity {
        Some(v) => EntityRecord {
            transform: Transform {
                translation: add_scaled_spec(e.transform.translation, v.value, dt),
                ..e.transform
            },
            ..e
        },
        None => e,
    }
}

/// Advances every velocity by its acceleration over `dt_ms` milliseconds.
pub fn apply_acceleration(world: &mut World, dt_ms: u32)
    requires
        old(world)@.wf(),
    ensures
        final(world)@.entities == old(world)@.entities.map_values(
            |e: EntityRecord| accelerated(e, dt_ms as int),
        ),
        final(world)@.contacts == old(world)@.contacts,
        final(world)@.next_index == old(world)@.next_index,
        final(world)@.wf(),
{
    let ghost target = old(world)@.entities.map_values(|e: EntityRecord| accelerated(e, dt_ms as int));
    let dt = dt_ms as i64;
    let mut i: usize = 0;
    while i < world.entities.len()
        invariant
            i <= world.entities.len(),
            world.entities.len() == old(world).entities.len(),
            world@.contacts == old(world)@.contacts,
            world.next_index == old(world).next_index,
            target == old(world)@.entities.map_values(|e: EntityRecord| accelerated(e, dt_ms as int)),
            dt == dt_ms,
            forall|k: int| 0 <= k < i ==> world@.entities[k] == target[k],
            forall|k: int|
                i <= k < world.entities.len() ==> world@.entities[k] == old(world)@.entities[k],
        decreases world.entities.len() - i,
    {
        let e = world.entities[i];
        match (e.velocity, e.acceleration) {
            (Some(v), Some(a)) => {
                let nv = Velocity { value: v.value.add_scaled(&a.value, dt) };
                world.entities.set(i, EntityRecord { velocity: Some(nv), ..e });
            },
            _ => {},
        }
        i += 1;
    }
    assert(world@.entities =~= target);
}

/// Moves every entity that carries a velocity over `dt_ms` milliseconds.
pub fn apply_velocity(world: &mut World, dt_ms: u32)
    requires
        old(world)@.wf(),
    ensures
        final(world)@.entities == old(world)@.entities.map_values(
            |e: EntityRecord| moved(e, dt_ms as int),
        ),
        final(world)@.contacts == old(world)@.contacts,
        final(world)@.next_index == old(world)@.next_index,
        final(world)@.wf(),
{
    let ghost target = old(world)@.entities.map_values(|e: EntityRecord| moved(e, dt_ms as int));
    let dt = dt_ms as i64;
    let mut i: usize = 0;
    while i < world.entities.len()
        invariant
            i <= world.entities.len(),
            world.entities.len() == old(world).entities.len(),
            world@.contacts == old(world)@.contacts,
            world.next_index == old(world).next_index,
            target == old(world)@.entities.map_values(|e: EntityRecord| moved(e, dt_ms as int)),
            dt == dt_ms,
            forall|k: int| 0 <= k < i ==> world@.entities[k] == target[k],
            forall|k: int|
                i <= k < world.entities.len() ==> world@.entities[k] == old(world)@.entities[k],
        decreases world.entities.len() - i,
    {
        let e = world.entities[i];
        match e.velocity {
            Some(v) => {
                let nt = Transform {
                    translation: e.transform.translation.add_scaled(&v.value, dt),
                    heading: e.transform.heading,
                };
                world.entities.set(i, EntityRecord { transform: nt, ..e });
            },
            None => {},
        }
        i += 1;
    }
    assert(world@.entities =~= target);
}

/// Installs motion integration: acceleration, then velocity, in the update phase.
pub struct MovementPlugin;

impl MovementPlugin {
    pub fn build(&self, app: &mut App)
        requires
            old(app)@.wf(),
        ensures
            final(app)@ == (AppView { plugins: Plugins { movement: true, ..old(app)@.plugins }, ..old(app)@ }),
            final(app)@.wf(),
    {
        app.plugins.movement = true;
    }
}

} // verus!
