use vstd::prelude::*;

use crate::math::Vec3;

verus! {

/// A stable entity identifier.
#[derive(Clone, Copy, Debug, PartialEq, Eq, Structural)]
pub struct Entity {
    pub index: u64,
}

/// The one role tag that each entity carries.
#[derive(Clone, Copy, Debug, PartialEq, Eq, Structural)]
pub enum Role {
    /// The player-controlled craft.
    Spaceship,
    /// A drifting hazard.
    Asteroid,
    /// A projectile fired by the craft.
    SpaceshipMissile,
}

/// Position (nano-units) and heading (unit vector scaled by 1000).
#[derive(Clone, Copy, Debug, PartialEq, Eq, Structural)]
pub struct Transform {
    pub translation: Vec3,
    pub heading: Vec3,
}

/// Velocity in micro-units per second.
#[derive(Clone, Copy, Debug, PartialEq, Eq, Structural)]
pub struct Velocity {
    pub value: Vec3,
}

/// Acceleration in milli-units per second squared.
#[derive(Clone, Copy, Debug, PartialEq, Eq, Structural)]
pub struct Acceleration {
    pub value: Vec3,
}

/// Bounding-sphere radius in nano-units; the overlap list lives in the world.
#[derive(Clone, Copy, Debug, PartialEq, Eq, Structural)]
pub struct Collider {
    pub radius: u64,
}

/// Health in milli-points; the entity is removed once it is not positive.
#[derive(Clone, Copy, Debug, PartialEq, Eq, Structural)]
pub struct Health {
    pub value: i64,
}

/// Damage in milli-points dealt to whatever this entity collides with.
#[derive(Clone, Copy, Debug, PartialEq, Eq, Structural)]
pub struct CollisionDamage {
    pub value: i64,
}

/// Largest collider radius: two radii together stay within the exact distance test.
/// A radius is always positive.
pub const MAX_RADIUS: u64 = 0x100_0000_0000;

impl Collider {
    pub fn new(radius: u64) -> (r: Collider)
        requires
            0 < radius <= MAX_RADIUS,
        ensures
            r.radius == radius,
    {
        Collider { radius }
    }
}

impl Health {
    pub fn new(value: i64) -> (r: Health)
        ensures
            r.value == value,
    {
        Health { value }
    }
}

impl CollisionDamage {
    pub fn new(value: i64) -> (r: CollisionDamage)
        ensures
            r.value == value,
    {
        CollisionDamage { value }
    }
}

impl Velocity {
    pub fn new(value: Vec3) -> (r: Velocity)
        ensures
            r.value == value,
    {
        Velocity { value }
    }
}

impl Acceleration {
    pub fn new(value: Vec3) -> (r: Acceleration)
        ensures
            r.value == value,
    {
        Acceleration { value }
    }
}

/// The fragments that a new entity starts with.
#[derive(Clone, Copy, Debug, PartialEq, Eq, Structural)]
pub struct Bundle {
    pub role: Role,
    pub transform: Transform,
    pub velocity: Option<Velocity>,
    pub acceleration: Option<Acceleration>,
    pub collider: Option<Collider>,
    pub health: Option<Health>,
    pub damage: Option<CollisionDamage>,
}

/// One stored entity: its id and fragments.
#[derive(Clone, Copy, Debug, PartialEq, Eq, Structural)]
pub struct EntityRecord {
    pub id: Entity,
    pub role: Role,
    pub transform: Transform,
    pub velocity: Option<Velocity>,
    pub acceleration: Option<Acceleration>,
    pub collider: Option<Collider>,
    pub health: Option<Health>,
    pub damage: Option<CollisionDamage>,
    pub shield: bool,
}

pub open spec fn record_of(id: Entity, b: Bundle) -> EntityRecord {
    EntityRecord {
        id,
        role: b.role,
        transform: b.transform,
        velocity: b.velocity,
        acceleration: b.acceleration,
        collider: b.collider,
        health: b.health,
        damage: b.damage,
        shield: false,
    }
}

/// Mathematical model of a world: records in store order, the overlap list
/// of each record, and the next unused id.
pub struct WorldView {
    pub entities: Seq<EntityRecord>,
    pub contacts: Seq<Seq<Entity>>,
    pub next_index: nat,
}

pub open spec fn unique_ids(es: Seq<EntityRecord>) -> bool {
    forall|i: int, j: int| 0 <= i < es.len() && 0 <= j < es.len() && i != j ==> es[i].id != es[j].id
}

pub open spec fn ids_below(es: Seq<EntityRecord>, n: nat) -> bool {
    forall|i: int| 0 <= i < es.len() ==> es[i].id.index < n
}

pub open spec fn radii_bounded(es: Seq<EntityRecord>) -> bool {
    forall|i: int|
        0 <= i < es.len() && (#[trigger] es[i]).collider is Some ==> 0 < es[i].collider->0.radius
            <= MAX_RADIUS
}

pub open spec fn has_id(es: Seq<EntityRecord>, id: Entity) -> bool {
    exists|i: int| 0 <= i < es.len() && es[i].id == id
}

impl WorldView {
    pub open spec fn wf(self) -> bool {
        &&& self.contacts.len() == self.entities.len()
        &&& unique_ids(self.entities)
        &&& ids_below(self.entities, self.next_index)
        &&& self.next_index <= u64::MAX
        &&& radii_bounded(self.entities)
    }
}

/// The entities whose id is not among `ids`, in store order.
pub open spec fn retained(es: Seq<EntityRecord>, ids: Seq<Entity>) -> Seq<EntityRecord>
    decreases es.len(),
{
    if es.len() == 0 {
        es
    } else if ids.contains(es[0].id) {
        retained(es.skip(1), ids)
    } else {
        seq![es[0]] + retained(es.skip(1), ids)
    }
}

/// The overlap lists that go with `retained(es, ids)`.
pub open spec fn retained_contacts(
    es: Seq<EntityRecord>,
    cs: Seq<Seq<Entity>>,
    ids: Seq<Entity>,
) -> Seq<Seq<Entity>>
    decreases es.len(),
{
    if es.len() == 0 || cs.len() == 0 {
        Seq::empty()
    } else if ids.contains(es[0].id) {
        retained_contacts(es.skip(1), cs.skip(1), ids)
    } else {
        seq![cs[0]] + retained_contacts(es.skip(1), cs.skip(1), ids)
    }
}

/// The world after removing every entity whose id is among `ids`.
pub open spec fn despawn_spec(w: WorldView, ids: Seq<Entity>) -> WorldView {
    WorldView {
        entities: retained(w.entities, ids),
        contacts: retained_contacts(w.entities, w.contacts, ids),
        next_index: w.next_index,
    }
}

/// The world after spawning one entity from `b`, if ids remain.
pub open spec fn spawn_spec(w: WorldView, b: Bundle) -> WorldView {
    if w.next_index < u64::MAX {
        WorldView {
            entities: w.entities.push(record_of(Entity { index: w.next_index as u64 }, b)),
            contacts: w.contacts.push(Seq::empty()),
            next_index: w.next_index + 1,
        }
    } else {
        w
    }
}

/// The world after spawning from each bundle in turn.
pub open spec fn spawn_all_spec(w: WorldView, bs: Seq<Bundle>) -> WorldView
    decreases bs.len(),
{
    if bs.len() == 0 {
        w
    } else {
        spawn_spec(spawn_all_spec(w, bs.drop_last()), bs.last())
    }
}

/// The world after tagging each entity whose id is among `ids` with the shield.
pub open spec fn shield_spec(w: WorldView, ids: Seq<Entity>) -> WorldView {
    WorldView {
        entities: w.entities.map_values(
            |e: EntityRecord|
                if ids.contains(e.id) {
                    EntityRecord { shield: true, ..e }
                } else {
                    e
                },
        ),
        contacts: w.contacts,
        next_index: w.next_index,
    }
}

pub proof fn lemma_retained(es: Seq<EntityRecord>, cs: Seq<Seq<Entity>>, ids: Seq<Entity>)
    requires
        cs.len() == es.len(),
    ensures
        retained(es, ids).len() == retained_contacts(es, cs, ids).len(),
        retained(es, ids).len() <= es.len(),
        forall|k: int|
            0 <= k < retained(es, ids).len() ==> exists|i: int|
                0 <= i < es.len() && es[i] == #[trigger] retained(es, ids)[k] && !ids.contains(
                    es[i].id,
                ),
        forall|i: int|
            0 <= i < es.len() && !ids.contains(#[trigger] es[i].id) && unique_ids(es)
                ==> retained(es, ids).contains(es[i]),
        unique_ids(es) ==> unique_ids(retained(es, ids)),
    decreases es.len(),
{
    if es.len() > 0 {
        let t = es.skip(1);
        lemma_retained(t, cs.skip(1), ids);
        let r = retained(es, ids);
        let rt = retained(t, ids);
        assert forall|k: int| 0 <= k < r.len() implies exists|i: int|
            0 <= i < es.len() && es[i] == #[trigger] r[k] && !ids.contains(es[i].id) by {
            if ids.contains(es[0].id) {
                let i = choose|i: int| 0 <= i < t.len() && t[i] == rt[k] && !ids.contains(t[i].id);
                assert(es[i + 1] == r[k]);
            } else if k == 0 {
                assert(es[0] == r[0]);
            } else {
                let i = choose|i: int|
                    0 <= i < t.len() && t[i] == rt[k - 1] && !ids.contains(t[i].id);
                assert(es[i + 1] == r[k]);
            }
        }
        assert forall|i: int|
            0 <= i < es.len() && !ids.contains(#[trigger] es[i].id) && unique_ids(es)
                implies r.contains(es[i]) by {
            if i == 0 {
                assert(r[0] == es[0]);
            } else {
                assert(t[i - 1] == es[i]);
                assert(unique_ids(t)) by {
                    assert forall|a: int, b: int|
                        0 <= a < t.len() && 0 <= b < t.len() && a != b implies t[a].id
                        != t[b].id by {
                        assert(es[a + 1] == t[a] && es[b + 1] == t[b]);
                    }
                }
                assert(rt.contains(es[i]));
                let k = choose|k: int| 0 <= k < rt.len() && rt[k] == es[i];
                if ids.contains(es[0].id) {
                    assert(r[k] == es[i]);
                } else {
                    assert(r[k + 1] == es[i]);
                }
            }
        }
        if unique_ids(es) {
            assert(unique_ids(t)) by {
                assert forall|a: int, b: int|
                    0 <= a < t.len() && 0 <= b < t.len() && a != b implies t[a].id
                    != t[b].id by {
                    assert(es[a + 1] == t[a] && es[b + 1] == t[b]);
                }
            }
            if !ids.contains(es[0].id) {
                assert forall|a: int, b: int|
                    0 <= a < r.len() && 0 <= b < r.len() && a != b implies r[a].id
                    != r[b].id by {
                    if a == 0 {
                        let i = choose|i: int|
                            0 <= i < t.len() && t[i] == rt[b - 1] && !ids.contains(t[i].id);
                        assert(es[i + 1] == t[i]);
                    } else if b == 0 {
                        let i = choose|i: int|
                            0 <= i < t.len() && t[i] == rt[a - 1] && !ids.contains(t[i].id);
                        assert(es[i + 1] == t[i]);
                    } else {
                        assert(r[a] == rt[a - 1] && r[b] == rt[b - 1]);
                    }
                }
            }
        }
    }
}

/// Whether `id` is among `ids`.
pub fn contains_id(ids: &Vec<Entity>, id: Entity) -> (r: bool)
    ensures
        r == ids@.contains(id),
{
    let mut i: usize = 0;
    while i < ids.len()
        invariant
            i <= ids.len(),
            forall|k: int| 0 <= k < i ==> ids@[k] != id,
        decreases ids.len() - i,
    {
        if ids[i] == id {
            return true;
        }
        i += 1;
    }
    false
}

/// The entity store: records in store order, each with its overlap list.
pub struct World {
    pub entities: Vec<EntityRecord>,
    pub contacts: Vec<Vec<Entity>>,
    pub next_index: u64,
}

impl View for World {
    type V = WorldView;

    open spec fn view(&self) -> WorldView {
        WorldView {
            entities: self.entities@,
            contacts: self.contacts@.map_values(|c: Vec<Entity>| c@),
            next_index: self.next_index as nat,
        }
    }
}

impl World {
    pub fn new() -> (r: World)
        ensures
            r@.entities.len() == 0,
            r@.contacts.len() == 0,
            r@.next_index == 0,
            r@.wf(),
    {
        World { entities: Vec::new(), contacts: Vec::new(), next_index: 0 }
    }

    /// Number of entities.
    pub fn len(&self) -> (r: usize)
        ensures
            r == self@.entities.len(),
    {
        self.entities.len()
    }

    /// Store position of the entity `id`, if it exists.
    pub fn find(&self, id: Entity) -> (r: Option<usize>)
        ensures
            r is None ==> !has_id(self@.entities, id),
            r matches Some(i) ==> i < self@.entities.len() && self@.entities[i as int].id == id,
    {
        let mut i: usize = 0;
        while i < self.entities.len()
            invariant
                i <= self.entities.len(),
                forall|k: int| 0 <= k < i ==> self@.entities[k].id != id,
            decreases self.entities.len() - i,
        {
            if self.entities[i].id == id {
                return Some(i);
            }
            i += 1;
        }
        None
    }

    /// The record of the entity `id`, if it exists.
    pub fn get(&self, id: Entity) -> (r: Option<EntityRecord>)
        requires
            self@.wf(),
        ensures
            r is None ==> !has_id(self@.entities, id),
            r matches Some(e) ==> self@.entities.contains(e) && e.id == id,
    {
        match self.find(id) {
            Some(i) => Some(self.entities[i]),
            None => None,
        }
    }

    /// A copy of the overlap list of the entity `id` (empty if it does not exist).
    pub fn overlaps(&self, id: Entity) -> (r: Vec<Entity>)
        requires
            self@.wf(),
        ensures
            forall|i: int|
                0 <= i < self@.entities.len() && self@.entities[i].id == id ==> r@
                    == self@.contacts[i],
            !has_id(self@.entities, id) ==> r@.len() == 0,
    {
        let mut out: Vec<Entity> = Vec::new();
        match self.find(id) {
            Some(i) => {
                let c = &self.contacts[i];
                let mut k: usize = 0;
                while k < c.len()
                    invariant
                        k <= c.len(),
                        out@ == c@.take(k as int),
                    decreases c.len() - k,
                {
                    out.push(c[k]);
                    k += 1;
                    assert(out@ =~= c@.take(k as int));
                }
                assert(c@.take(c.len() as int) =~= c@);
                out
            },
            None => out,
        }
    }

    /// Adds an entity built from `b`; nothing happens once ids are exhausted.
    pub fn spawn(&mut self, b: Bundle) -> (r: Option<Entity>)
        requires
            old(self)@.wf(),
            b.collider matches Some(c) ==> 0 < c.radius <= MAX_RADIUS,
        ensures
            final(self)@ == spawn_spec(old(self)@, b),
            final(self)@.wf(),
            r == (if old(self)@.next_index < u64::MAX {
                Some(Entity { index: old(self).next_index })
            } else {
                None
            }),
    {
        if self.next_index == u64::MAX {
            return None;
        }
        let id = Entity { index: self.next_index };
        let rec = EntityRecord {
            id,
            role: b.role,
            transform: b.transform,
            velocity: b.velocity,
            acceleration: b.acceleration,
            collider: b.collider,
            health: b.health,
            damage: b.damage,
            shield: false,
        };
        self.entities.push(rec);
        self.contacts.push(Vec::new());
        self.next_index = self.next_index + 1;
        assert(self@.contacts =~= old(self)@.contacts.push(Seq::empty()));
        assert(self@.entities =~= old(self)@.entities.push(record_of(id, b)));
        Some(id)
    }

    /// Removes every entity whose id is among `ids`; an id asked twice, or
    /// one that does not exist, changes nothing more.
    pub fn despawn(&mut self, ids: &Vec<Entity>)
        requires
            old(self)@.wf(),
        ensures
            final(self)@ == despawn_spec(old(self)@, ids@),
            final(self)@.wf(),
    {
        let ghost es = old(self)@.entities;
        let ghost cs = old(self)@.contacts;
        let mut i: usize = self.entities.len();
        while i > 0
            invariant
                i <= es.len(),
                es.len() == cs.len(),
                es == old(self)@.entities,
                cs == old(self)@.contacts,
                self@.entities == es.take(i as int) + retained(es.skip(i as int), ids@),
                self@.contacts == cs.take(i as int) + retained_contacts(
                    es.skip(i as int),
                    cs.skip(i as int),
                    ids@,
                ),
                self.contacts.len() == self.entities.len(),
                self.next_index == old(self).next_index,
            decreases i,
        {
            proof {
                lemma_retained(es.skip(i as int), cs.skip(i as int), ids@);
            }
            i -= 1;
            let id = self.entities[i].id;
            let ghost before = self@;
            assert(es.skip(i as int).skip(1) =~= es.skip(i + 1));
            assert(cs.skip(i as int).skip(1) =~= cs.skip(i + 1));
            assert(es.skip(i as int)[0] == es[i as int]);
            assert(before.entities[i as int] == es[i as int]);
            assert(before.contacts[i as int] == cs[i as int]);
            if contains_id(ids, id) {
                self.entities.remove(i);
                self.contacts.remove(i);
                assert(self@.contacts =~= before.contacts.remove(i as int));
                assert(retained_contacts(es.skip(i as int), cs.skip(i as int), ids@)
                    == retained_contacts(es.skip(i + 1), cs.skip(i + 1), ids@));
                assert(self@.entities =~= es.take(i as int) + retained(es.skip(i as int), ids@));
                assert(self@.contacts =~= cs.take(i as int) + retained_contacts(
                    es.skip(i as int),
                    cs.skip(i as int),
                    ids@,
                ));
            } else {
                assert(self@.entities =~= es.take(i as int) + retained(es.skip(i as int), ids@));
                assert(self@.contacts =~= cs.take(i as int) + retained_contacts(
                    es.skip(i as int),
                    cs.skip(i as int),
                    ids@,
                ));
            }
        }
        proof {
            lemma_retained(es, cs, ids@);
            assert(es.skip(0) =~= es);
            assert(cs.skip(0) =~= cs);
            assert(self@.entities =~= retained(es, ids@));
            assert(self@.contacts =~= retained_contacts(es, cs, ids@));
            let r = self@.entities;
            assert forall|k: int| 0 <= k < r.len() implies r[k].id.index < self@.next_index by {
                let j = choose|j: int| 0 <= j < es.len() && es[j] == #[trigger] r[k] && !ids@.contains(es[j].id);
            }
            assert forall|k: int| 0 <= k < r.len() && (#[trigger] r[k]).collider is Some
                implies 0 < r[k].collider->0.radius <= MAX_RADIUS by {
                let j = choose|j: int| 0 <= j < es.len() && es[j] == #[trigger] r[k] && !ids@.contains(es[j].id);
            }
        }
    }
}


/// Structural changes queued during a phase and applied together at its end.
pub struct Commands {
    pub spawns: Vec<Bundle>,
    pub despawns: Vec<Entity>,
    pub shields: Vec<Entity>,
}

pub open spec fn bundles_ok(bs: Seq<Bundle>) -> bool {
    forall|k: int|
        0 <= k < bs.len() && (#[trigger] bs[k]).collider is Some ==> 0 < bs[k].collider->0.radius
            <= MAX_RADIUS
}

/// The world after applying queued despawns, then shield tags, then spawns.
pub open spec fn apply_spec(
    w: WorldView,
    spawns: Seq<Bundle>,
    despawns: Seq<Entity>,
    shields: Seq<Entity>,
) -> WorldView {
    spawn_all_spec(shield_spec(despawn_spec(w, despawns), shields), spawns)
}

impl Commands {
    pub fn new() -> (r: Commands)
        ensures
            r.spawns@.len() == 0,
            r.despawns@.len() == 0,
            r.shields@.len() == 0,
    {
        Commands { spawns: Vec::new(), despawns: Vec::new(), shields: Vec::new() }
    }

    pub fn spawn(&mut self, b: Bundle)
        ensures
            final(self).spawns@ == old(self).spawns@.push(b),
            final(self).despawns@ == old(self).despawns@,
            final(self).shields@ == old(self).shields@,
    {
        self.spawns.push(b);
    }

    pub fn despawn(&mut self, id: Entity)
        ensures
            final(self).despawns@ == old(self).despawns@.push(id),
            final(self).spawns@ == old(self).spawns@,
            final(self).shields@ == old(self).shields@,
    {
        self.despawns.push(id);
    }

    pub fn insert_shield(&mut self, id: Entity)
        ensures
            final(self).shields@ == old(self).shields@.push(id),
            final(self).spawns@ == old(self).spawns@,
            final(self).despawns@ == old(self).despawns@,
    {
        self.shields.push(id);
    }
}

impl World {
    /// Tags with the shield every entity whose id is among `ids`.
    pub fn insert_shields(&mut self, ids: &Vec<Entity>)
        requires
            old(self)@.wf(),
        ensures
            final(self)@ == shield_spec(old(self)@, ids@),
            final(self)@.wf(),
    {
        let ghost target = shield_spec(old(self)@, ids@).entities;
        let mut i: usize = 0;
        while i < self.entities.len()
            invariant
                i <= self.entities.len(),
                self.entities.len() == old(self).entities.len(),
                self@.contacts == old(self)@.contacts,
                self.next_index == old(self).next_index,
                target == shield_spec(old(self)@, ids@).entities,
                forall|k: int| 0 <= k < i ==> self@.entities[k] == target[k],
                forall|k: int| i <= k < self.entities.len() ==> self@.entities[k] == old(self)@.entities[k],
            decreases self.entities.len() - i,
        {
            let e = self.entities[i];
            if contains_id(ids, e.id) {
                self.entities.set(i, EntityRecord { shield: true, ..e });
            }
            i += 1;
        }
        assert(self@.entities =~= target);
    }

    /// Spawns from each bundle in turn.
    pub fn spawn_all(&mut self, bs: &Vec<Bundle>)
        requires
            old(self)@.wf(),
            bundles_ok(bs@),
        ensures
            final(self)@ == spawn_all_spec(old(self)@, bs@),
            final(self)@.wf(),
    {
        let mut k: usize = 0;
        while k < bs.len()
            invariant
                k <= bs.len(),
                bundles_ok(bs@),
                self@ == spawn_all_spec(old(self)@, bs@.take(k as int)),
                self@.wf(),
            decreases bs.len() - k,
        {
            let _ = self.spawn(bs[k]);
            assert(bs@.take(k + 1).drop_last() =~= bs@.take(k as int));
            k += 1;
        }
        assert(bs@.take(bs.len() as int) =~= bs@);
    }

    /// Applies queued structural changes: despawns, then shield tags, then spawns.
    pub fn apply(&mut self, cmds: &Commands)
        requires
            old(self)@.wf(),
            bundles_ok(cmds.spawns@),
        ensures
            final(self)@ == apply_spec(old(self)@, cmds.spawns@, cmds.despawns@, cmds.shields@),
            final(self)@.wf(),
    {
        self.despawn(&cmds.despawns);
        self.insert_shields(&cmds.shields);
        self.spawn_all(&cmds.spawns);
    }
}

impl World {
    /// Turns the entity `id` to face along `heading`; nothing else changes.
    pub fn set_heading(&mut self, id: Entity, heading: Vec3)
        requires
            old(self)@.wf(),
        ensures
            final(self)@.entities == old(self)@.entities.map_values(
                |e: EntityRecord|
                    if e.id == id {
                        EntityRecord { transform: Transform { heading, ..e.transform }, ..e }
                    } else {
                        e
                    },
            ),
            final(self)@.contacts == old(self)@.contacts,
            final(self)@.next_index == old(self)@.next_index,
            final(self)@.wf(),
    {
        match self.find(id) {
            Some(i) => {
                let e = self.entities[i];
                let t = Transform { translation: e.transform.translation, heading };
                self.entities.set(i, EntityRecord { transform: t, ..e });
            },
            None => {},
        }
        assert(self@.entities =~= old(self)@.entities.map_values(
            |e: EntityRecord|
                if e.id == id {
                    EntityRecord { transform: Transform { heading, ..e.transform }, ..e }
                } else {
                    e
                },
        ));
    }
}

/// With no removals and no tags queued, applying commands is spawning them.
pub proof fn lemma_apply_spawns_only(w: WorldView, sp: Seq<Bundle>, d: Seq<Entity>, sh: Seq<Entity>)
    requires
        w.wf(),
        d.len() == 0,
        sh.len() == 0,
    ensures
        apply_spec(w, sp, d, sh) == spawn_all_spec(w, sp),
{
    lemma_retain_nothing(w.entities, d);
    lemma_retain_contacts_nothing(w.entities, w.contacts, d);
    let w1 = despawn_spec(w, d);
    assert(w1 == w);
    let w2 = shield_spec(w1, sh);
    assert(w2.entities =~= w.entities);
    assert(w2 == w);
}

proof fn lemma_retain_nothing(es: Seq<EntityRecord>, ids: Seq<Entity>)
    requires
        ids.len() == 0,
    ensures
        retained(es, ids) == es,
    decreases es.len(),
{
    if es.len() > 0 {
        lemma_retain_nothing(es.skip(1), ids);
        assert(seq![es[0]] + es.skip(1) =~= es);
    }
}

proof fn lemma_retain_contacts_nothing(es: Seq<EntityRecord>, cs: Seq<Seq<Entity>>, ids: Seq<Entity>)
    requires
        ids.len() == 0,
        cs.len() == es.len(),
    ensures
        retained_contacts(es, cs, ids) == cs,
    decreases es.len(),
{
    if es.len() > 0 {
        lemma_retain_contacts_nothing(es.skip(1), cs.skip(1), ids);
        assert(seq![cs[0]] + cs.skip(1) =~= cs);
    }
}

} // verus!
