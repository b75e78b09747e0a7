use vstd::prelude::*;

use crate::game::{App, AppView, Plugins};

use crate::math::{farther_than, norm_sq, sq};
use crate::world::{
    despawn_spec, has_id, lemma_retained, retained, retained_contacts, unique_ids, Commands,
    Entity, EntityRecord, Role, World, WorldView,
};

verus! {

/// Distance from the origin (nano-units) beyond which asteroids and missiles are removed.
pub const DESPAWN_DISTANCE_THRESHOLD: u64 = 100_000_000_000;

/// An entity of role `r` whose distance from the origin exceeds the threshold.
pub open spec fn far_away(e: EntityRecord, r: Role) -> bool {
    e.role == r && norm_sq(e.transform.translation) > sq(DESPAWN_DISTANCE_THRESHOLD as int)
}

/// An entity whose health is not positive.
pub open spec fn dead(e: EntityRecord) -> bool {
    e.health matches Some(h) && h.value <= 0
}

/// Ids, in store order, of the far-away entities of role `r` among the first `n`.
pub open spec fn far_away_ids(es: Seq<EntityRecord>, r: Role, n: int) -> Seq<Entity>
    decreases n,
{
    if n <= 0 {
        Seq::empty()
    } else if far_away(es[n - 1], r) {
        far_away_ids(es, r, n - 1).push(es[n - 1].id)
    } else {
        far_away_ids(es, r, n - 1)
    }
}

/// Ids, in store order, of the dead entities among the first `n`.
pub open spec fn dead_ids(es: Seq<EntityRecord>, n: int) -> Seq<Entity>
    decreases n,
{
    if n <= 0 {
        Seq::empty()
    } else if dead(es[n - 1]) {
        dead_ids(es, n - 1).push(es[n - 1].id)
    } else {
        dead_ids(es, n - 1)
    }
}

/// Distance rule for role `r`: queues the removal of each entity of that
/// role whose distance from the origin exceeds the threshold.
pub fn despawn_far_away_components(world: &World, r: Role, commands: &mut Commands)
    ensures
        final(commands).despawns@ == old(commands).despawns@ + far_away_ids(
            world@.entities,
            r,
            world@.entities.len() as int,
        ),
        final(commands).spawns@ == old(commands).spawns@,
        final(commands).shields@ == old(commands).shields@,
{
    let ghost es = world@.entities;
    let mut i: usize = 0;
    while i < world.entities.len()
        invariant
            es == world@.entities,
            i <= es.len(),
            commands.despawns@ == old(commands).despawns@ + far_away_ids(es, r, i as int),
            commands.spawns@ == old(commands).spawns@,
            commands.shields@ == old(commands).shields@,
        decreases es.len() - i,
    {
        let e = &world.entities[i];
        if e.role == r && farther_than(&e.transform.translation, DESPAWN_DISTANCE_THRESHOLD) {
            commands.despawn(e.id);
        }
        assert(commands.despawns@ =~= old(commands).despawns@ + far_away_ids(es, r, i + 1));
        i += 1;
    }
}

/// Health rule: queues the removal of each entity whose health is not positive.
pub fn despawn_dead_entities(world: &World, commands: &mut Commands)
    ensures
        final(commands).despawns@ == old(commands).despawns@ + dead_ids(
            world@.entities,
            world@.entities.len() as int,
        ),
        final(commands).spawns@ == old(commands).spawns@,
        final(commands).shields@ == old(commands).shields@,
{
    let ghost es = world@.entities;
    let mut i: usize = 0;
    while i < world.entities.len()
        invariant
            es == world@.entities,
            i <= es.len(),
            commands.despawns@ == old(commands).despawns@ + dead_ids(es, i as int),
            commands.spawns@ == old(commands).spawns@,
            commands.shields@ == old(commands).shields@,
        decreases es.len() - i,
    {
        let e = &world.entities[i];
        match e.health {
            Some(h) => {
                if h.value <= 0 {
                    commands.despawn(e.id);
                }
            },
            None => {},
        }
        assert(commands.despawns@ =~= old(commands).despawns@ + dead_ids(es, i + 1));
        i += 1;
    }
}

proof fn lemma_retained_same_ids(
    es: Seq<EntityRecord>,
    cs: Seq<Seq<Entity>>,
    a: Seq<Entity>,
    b: Seq<Entity>,
)
    requires
        forall|x: Entity| a.contains(x) == b.contains(x),
    ensures
        retained(es, a) == retained(es, b),
        retained_contacts(es, cs, a) == retained_contacts(es, cs, b),
    decreases es.len(),
{
    if es.len() > 0 {
        lemma_retained_same_ids(es.skip(1), cs.skip(1), a, b);
    }
}

proof fn lemma_retained_one(es: Seq<EntityRecord>, id: Entity)
    requires
        unique_ids(es),
    ensures
        retained(es, seq![id]).len() == es.len() - (if has_id(es, id) { 1int } else { 0int }),
    decreases es.len(),
{
    if es.len() > 0 {
        let t = es.skip(1);
        assert(unique_ids(t)) by {
            assert forall|a: int, b: int|
                0 <= a < t.len() && 0 <= b < t.len() && a != b implies t[a].id != t[b].id by {
                assert(es[a + 1] == t[a] && es[b + 1] == t[b]);
            }
        }
        lemma_retained_one(t, id);
        assert(seq![id].contains(es[0].id) <==> es[0].id == id) by {
            if es[0].id == id {
                assert(seq![id][0] == id);
            }
        }
        if es[0].id == id {
            assert(has_id(es, id));
            if has_id(t, id) {
                let k = choose|k: int| 0 <= k < t.len() && t[k].id == id;
                assert(es[k + 1].id == id);
            }
        } else {
            if has_id(es, id) {
                let k = choose|k: int| 0 <= k < es.len() && es[k].id == id;
                assert(t[k - 1].id == id);
            }
            if has_id(t, id) {
                let k = choose|k: int| 0 <= k < t.len() && t[k].id == id;
                assert(es[k + 1].id == id);
            }
        }
    }
}

/// Removal is idempotent: two removal requests for one id in a phase act as
/// one, and remove exactly one entity when it exists and none otherwise.
pub proof fn despawn_twice(w: WorldView, id: Entity)
    requires
        w.wf(),
    ensures
        despawn_spec(w, seq![id, id]) == despawn_spec(w, seq![id]),
        despawn_spec(w, seq![id]).entities.len() == w.entities.len() - (if has_id(
            w.entities,
            id,
        ) {
            1int
        } else {
            0int
        }),
{
    let two = seq![id, id];
    let one = seq![id];
    assert forall|x: Entity| two.contains(x) == one.contains(x) by {
        if two.contains(x) {
            let k = choose|k: int| 0 <= k < two.len() && two[k] == x;
            assert(one[0] == x);
        }
        if one.contains(x) {
            assert(two[0] == x);
        }
    }
    lemma_retained_same_ids(w.entities, w.contacts, two, one);
    lemma_retained_one(w.entities, id);
}

proof fn lemma_far_away_ids(es: Seq<EntityRecord>, r: Role, n: int, id: Entity)
    requires
        0 <= n <= es.len(),
    ensures
        far_away_ids(es, r, n).contains(id) <==> exists|i: int|
            0 <= i < n && far_away(es[i], r) && es[i].id == id,
    decreases n,
{
    if n > 0 {
        lemma_far_away_ids(es, r, n - 1, id);
        let prev = far_away_ids(es, r, n - 1);
        if far_away(es[n - 1], r) {
            assert(far_away_ids(es, r, n) == prev.push(es[n - 1].id));
            if prev.contains(id) {
                let j = choose|j: int| 0 <= j < prev.len() && prev[j] == id;
                assert(far_away_ids(es, r, n)[j] == id);
            }
            if es[n - 1].id == id {
                assert(far_away_ids(es, r, n)[prev.len() as int] == id);
            }
            if far_away_ids(es, r, n).contains(id) {
                let j = choose|j: int|
                    0 <= j < far_away_ids(es, r, n).len() && far_away_ids(es, r, n)[j] == id;
                if j < prev.len() {
                    assert(prev[j] == id);
                }
            }
        }
    }
}

proof fn lemma_dead_ids(es: Seq<EntityRecord>, n: int, id: Entity)
    requires
        0 <= n <= es.len(),
    ensures
        dead_ids(es, n).contains(id) <==> exists|i: int| 0 <= i < n && dead(es[i]) && es[i].id == id,
    decreases n,
{
    if n > 0 {
        lemma_dead_ids(es, n - 1, id);
        let prev = dead_ids(es, n - 1);
        if dead(es[n - 1]) {
            assert(dead_ids(es, n) == prev.push(es[n - 1].id));
            if prev.contains(id) {
                let j = choose|j: int| 0 <= j < prev.len() && prev[j] == id;
                assert(dead_ids(es, n)[j] == id);
            }
            if es[n - 1].id == id {
                assert(dead_ids(es, n)[prev.len() as int] == id);
            }
            if dead_ids(es, n).contains(id) {
                let j = choose|j: int| 0 <= j < dead_ids(es, n).len() && dead_ids(es, n)[j] == id;
                if j < prev.len() {
                    assert(prev[j] == id);
                }
            }
        }
    }
}

/// Doomed by the despawn rules: a far-away asteroid or missile, or an entity
/// whose health is not positive.
pub open spec fn doomed(e: EntityRecord) -> bool {
    far_away(e, Role::Asteroid) || far_away(e, Role::SpaceshipMissile) || dead(e)
}

/// The despawn rules take effect within one phase: once the removals that
/// they queue are applied, no doomed entity is left, and every other entity
/// is still there.
pub proof fn despawn_rules_take_effect(w: WorldView, ids: Seq<Entity>)
    requires
        w.wf(),
        ids == Seq::<Entity>::empty() + far_away_ids(
            w.entities,
            Role::Asteroid,
            w.entities.len() as int,
        ) + far_away_ids(w.entities, Role::SpaceshipMissile, w.entities.len() as int) + dead_ids(
            w.entities,
            w.entities.len() as int,
        ),
    ensures
        forall|k: int|
            0 <= k < despawn_spec(w, ids).entities.len() ==> !doomed(
                #[trigger] despawn_spec(w, ids).entities[k],
            ),
        forall|i: int|
            0 <= i < w.entities.len() && !doomed(#[trigger] w.entities[i])
                ==> despawn_spec(w, ids).entities.contains(w.entities[i]),
{
    let es = w.entities;
    let n = es.len() as int;
    let fa = far_away_ids(es, Role::Asteroid, n);
    let fm = far_away_ids(es, Role::SpaceshipMissile, n);
    let dd = dead_ids(es, n);
    assert forall|x: Entity| ids.contains(x) <==> (fa.contains(x) || fm.contains(x) || dd.contains(x)) by {
        let e0 = Seq::<Entity>::empty();
        assert(ids == e0 + fa + fm + dd);
        if ids.contains(x) {
            let j = choose|j: int| 0 <= j < ids.len() && ids[j] == x;
            if j < fa.len() {
                assert(fa[j] == x);
            } else if j < fa.len() + fm.len() {
                assert(fm[j - fa.len()] == x);
            } else {
                assert(dd[j - fa.len() - fm.len()] == x);
            }
        }
        if fa.contains(x) {
            let j = choose|j: int| 0 <= j < fa.len() && fa[j] == x;
            assert(ids[j] == x);
        }
        if fm.contains(x) {
            let j = choose|j: int| 0 <= j < fm.len() && fm[j] == x;
            assert(ids[fa.len() + j] == x);
        }
        if dd.contains(x) {
            let j = choose|j: int| 0 <= j < dd.len() && dd[j] == x;
            assert(ids[fa.len() + fm.len() + j] == x);
        }
    }
    lemma_retained(es, w.contacts, ids);
    let r = retained(es, ids);
    assert forall|k: int| 0 <= k < r.len() implies !doomed(#[trigger] r[k]) by {
        let i = choose|i: int| 0 <= i < es.len() && es[i] == r[k] && !ids.contains(es[i].id);
        lemma_far_away_ids(es, Role::Asteroid, n, es[i].id);
        lemma_far_away_ids(es, Role::SpaceshipMissile, n, es[i].id);
        lemma_dead_ids(es, n, es[i].id);
    }
    assert forall|i: int| 0 <= i < es.len() && !doomed(#[trigger] es[i]) implies r.contains(es[i]) by {
        lemma_far_away_ids(es, Role::Asteroid, n, es[i].id);
        lemma_far_away_ids(es, Role::SpaceshipMissile, n, es[i].id);
        lemma_dead_ids(es, n, es[i].id);
        if ids.contains(es[i].id) {
            if fa.contains(es[i].id) {
                let j = choose|j: int| 0 <= j < n && far_away(es[j], Role::Asteroid) && es[j].id == es[i].id;
                assert(j == i);
            } else if fm.contains(es[i].id) {
                let j = choose|j: int|
                    0 <= j < n && far_away(es[j], Role::SpaceshipMissile) && es[j].id == es[i].id;
                assert(j == i);
            } else {
                let j = choose|j: int| 0 <= j < n && dead(es[j]) && es[j].id == es[i].id;
                assert(j == i);
            }
        }
    }
}

/// Installs the distance rule for asteroids and missiles and the health rule in the despawn phase.
pub struct DespawnPlugin;

impl DespawnPlugin {
    pub fn build(&self, app: &mut App)
        requires
            old(app)@.wf(),
        ensures
            final(app)@ == (AppView { plugins: Plugins { despawn: true, ..old(app)@.plugins }, ..old(app)@ }),
            final(app)@.wf(),
    {
        app.plugins.despawn = true;
    }
}

} // verus!
