use vstd::prelude::*;

use crate::game::{App, AppView, Plugins};

use crate::math::{clamp, closer_than, dist_sq, sat_sub, sq};
use crate::world::{
    unique_ids, Entity, EntityRecord, Health, Role, World, WorldView, MAX_RADIUS,
};

verus! {

/// Notice that `entity` touched `collided_entity` this frame.
#[derive(Clone, Copy, Debug, PartialEq, Eq, Structural)]
pub struct CollisionEvent {
    pub entity: Entity,
    pub collided_entity: Entity,
}

impl CollisionEvent {
    pub fn new(entity: Entity, collided_entity: Entity) -> (r: CollisionEvent)
        ensures
            r.entity == entity,
            r.collided_entity == collided_entity,
    {
        CollisionEvent { entity, collided_entity }
    }
}

/// Both carry a collider and their spheres overlap: the distance between the
/// centres is strictly less than the sum of the radii.
pub open spec fn collides(a: EntityRecord, b: EntityRecord) -> bool {
    &&& a.collider is Some
    &&& b.collider is Some
    &&& dist_sq(a.transform.translation, b.transform.translation) < sq(
        a.collider->0.radius + b.collider->0.radius,
    )
}

/// Ids of the entities among the first `n` that entity `i` overlaps, in store order.
pub open spec fn hits(es: Seq<EntityRecord>, i: int, n: int) -> Seq<Entity>
    decreases n,
{
    if n <= 0 {
        Seq::empty()
    } else if n - 1 != i && collides(es[i], es[n - 1]) {
        hits(es, i, n - 1).push(es[n - 1].id)
    } else {
        hits(es, i, n - 1)
    }
}

/// The world after a detection phase: every overlap list rebuilt from scratch.
pub open spec fn detect_spec(w: WorldView) -> WorldView {
    WorldView {
        entities: w.entities,
        contacts: Seq::new(w.entities.len(), |i: int| hits(w.entities, i, w.entities.len() as int)),
        next_index: w.next_index,
    }
}

/// `id` names an entity that carries role `r` and a collider.
pub open spec fn same_role(es: Seq<EntityRecord>, id: Entity, r: Role) -> bool {
    exists|k: int| 0 <= k < es.len() && es[k].id == id && es[k].role == r && es[k].collider is Some
}

/// The first id of `os` that does not name an entity of role `r` with a collider.
pub open spec fn first_foreign(es: Seq<EntityRecord>, os: Seq<Entity>, r: Role) -> Option<Entity>
    decreases os.len(),
{
    if os.len() == 0 {
        None
    } else if !same_role(es, os[0], r) {
        Some(os[0])
    } else {
        first_foreign(es, os.skip(1), r)
    }
}

/// The notices that the resolver for role `r` sends for the first `n` entities.
pub open spec fn collision_events(
    es: Seq<EntityRecord>,
    cs: Seq<Seq<Entity>>,
    r: Role,
    n: int,
) -> Seq<CollisionEvent>
    decreases n,
{
    if n <= 0 {
        Seq::empty()
    } else {
        let prev = collision_events(es, cs, r, n - 1);
        let e = es[n - 1];
        if e.role == r && e.collider is Some {
            match first_foreign(es, cs[n - 1], r) {
                Some(o) => prev.push(CollisionEvent { entity: e.id, collided_entity: o }),
                None => prev,
            }
        } else {
            prev
        }
    }
}

/// The notices of the resolver for role `r` over the whole world.
pub open spec fn events_for(w: WorldView, r: Role) -> Seq<CollisionEvent> {
    collision_events(w.entities, w.contacts, r, w.entities.len() as int)
}

/// The damage carried by the entity `id`, if it exists and carries one.
pub open spec fn damage_of(es: Seq<EntityRecord>, id: Entity) -> Option<i64> {
    if exists|k: int| 0 <= k < es.len() && es[k].id == id && es[k].damage is Some {
        let k = choose|k: int| 0 <= k < es.len() && es[k].id == id && es[k].damage is Some;
        Some(es[k].damage->0.value)
    } else {
        None
    }
}

/// One notice applied: the notified entity loses the damage of the other, if
/// it has health and the other carries damage.
pub open spec fn damage_one(es: Seq<EntityRecord>, ev: CollisionEvent) -> Seq<EntityRecord> {
    match damage_of(es, ev.collided_entity) {
        Some(d) => es.map_values(
            |e: EntityRecord|
                if e.id == ev.entity && e.health is Some {
                    EntityRecord {
                        health: Some(Health { value: clamp(e.health->0.value - d) as i64 }),
                        ..e
                    }
                } else {
                    e
                },
        ),
        None => es,
    }
}

/// All notices applied in order.
pub open spec fn damage_spec(es: Seq<EntityRecord>, evs: Seq<CollisionEvent>) -> Seq<
    EntityRecord,
>
    decreases evs.len(),
{
    if evs.len() == 0 {
        es
    } else {
        damage_one(damage_spec(es, evs.drop_last()), evs.last())
    }
}

/// Exact overlap test of two records.
fn collides_exec(a: &EntityRecord, b: &EntityRecord) -> (r: bool)
    requires
        a.collider matches Some(c) ==> c.radius <= MAX_RADIUS,
        b.collider matches Some(c) ==> c.radius <= MAX_RADIUS,
    ensures
        r == collides(*a, *b),
{
    match (a.collider, b.collider) {
        (Some(ca), Some(cb)) => closer_than(
            &a.transform.translation,
            &b.transform.translation,
            ca.radius + cb.radius,
        ),
        _ => false,
    }
}

/// Detection phase: clears every overlap list and refills it with the ids of
/// all other entities whose sphere overlaps, by the all-pairs test.
pub fn collision_detection(world: &mut World)
    requires
        old(world)@.wf(),
    ensures
        final(world)@ == detect_spec(old(world)@),
        final(world)@.wf(),
{
    let n = world.entities.len();
    let ghost es = world@.entities;
    let mut fresh: Vec<Vec<Entity>> = Vec::new();
    let mut i: usize = 0;
    while i < n
        invariant
            n == es.len(),
            es == world@.entities,
            world@.wf(),
            i <= n,
            fresh.len() == i,
            forall|k: int| 0 <= k < i ==> (#[trigger] fresh@[k])@ == hits(es, k, n as int),
        decreases n - i,
    {
        let mut row: Vec<Entity> = Vec::new();
        let mut j: usize = 0;
        while j < n
            invariant
                n == es.len(),
                es == world@.entities,
                world@.wf(),
                i < n,
                j <= n,
                row@ == hits(es, i as int, j as int),
            decreases n - j,
        {
            proof {
                assert(world@.entities[i as int] == es[i as int]);
            }
            if i != j && collides_exec(&world.entities[i], &world.entities[j]) {
                row.push(world.entities[j].id);
            }
            j += 1;
        }
        fresh.push(row);
        i += 1;
    }
    world.contacts = fresh;
    assert(world@.contacts =~= detect_spec(old(world)@).contacts);
}

/// Whether `id` names an entity of role `r` that carries a collider.
fn same_role_exec(world: &World, id: Entity, r: Role) -> (b: bool)
    requires
        world@.wf(),
    ensures
        b == same_role(world@.entities, id, r),
{
    match world.find(id) {
        Some(i) => {
            let e = &world.entities[i];
            e.role == r && e.collider.is_some()
        },
        None => false,
    }
}

fn first_foreign_exec(world: &World, os: &Vec<Entity>, r: Role) -> (f: Option<Entity>)
    requires
        world@.wf(),
    ensures
        f == first_foreign(world@.entities, os@, r),
{
    let mut j: usize = 0;
    assert(os@.skip(0) =~= os@);
    while j < os.len()
        invariant
            world@.wf(),
            j <= os.len(),
            first_foreign(world@.entities, os@, r) == first_foreign(
                world@.entities,
                os@.skip(j as int),
                r,
            ),
        decreases os.len() - j,
    {
        assert(os@.skip(j as int).skip(1) =~= os@.skip(j + 1));
        assert(os@.skip(j as int)[0] == os@[j as int]);
        if !same_role_exec(world, os[j], r) {
            return Some(os[j]);
        }
        j += 1;
    }
    None
}

/// Resolver for role `r`: for each entity of that role with a collider, the
/// first overlapping id that is not an entity of the same role gives one
/// notice; later overlaps of that entity are not looked at this frame.
pub fn handle_collisions(world: &World, r: Role) -> (evs: Vec<CollisionEvent>)
    requires
        world@.wf(),
    ensures
        evs@ == events_for(world@, r),
{
    let n = world.entities.len();
    let mut evs: Vec<CollisionEvent> = Vec::new();
    let mut i: usize = 0;
    while i < n
        invariant
            n == world@.entities.len(),
            world@.wf(),
            i <= n,
            evs@ == collision_events(world@.entities, world@.contacts, r, i as int),
        decreases n - i,
    {
        let e = &world.entities[i];
        if e.role == r && e.collider.is_some() {
            match first_foreign_exec(world, &world.contacts[i], r) {
                Some(o) => evs.push(CollisionEvent::new(e.id, o)),
                None => {},
            }
        }
        i += 1;
    }
    evs
}

fn damage_of_exec(world: &World, id: Entity) -> (d: Option<i64>)
    requires
        world@.wf(),
    ensures
        d == damage_of(world@.entities, id),
{
    match world.find(id) {
        Some(i) => {
            let e = &world.entities[i];
            proof {
                let es = world@.entities;
                if e.damage is Some {
                    let k = choose|k: int|
                        0 <= k < es.len() && es[k].id == id && es[k].damage is Some;
                    assert(k == i);
                }
            }
            match e.damage {
                Some(dm) => Some(dm.value),
                None => None,
            }
        },
        None => None,
    }
}

/// Damage step: for each notice in order, the notified entity loses the
/// damage of the entity it touched; a notice where either side lacks the
/// fragment is skipped.
pub fn apply_collision_damage(world: &mut World, evs: &Vec<CollisionEvent>)
    requires
        old(world)@.wf(),
    ensures
        final(world)@.entities == damage_spec(old(world)@.entities, evs@),
        final(world)@.contacts == old(world)@.contacts,
        final(world)@.next_index == old(world)@.next_index,
        final(world)@.wf(),
{
    let ghost es0 = old(world)@.entities;
    let mut k: usize = 0;
    while k < evs.len()
        invariant
            k <= evs.len(),
            world@.wf(),
            world@.entities == damage_spec(es0, evs@.take(k as int)),
            world@.entities.len() == es0.len(),
            forall|m: int| 0 <= m < es0.len() ==> (#[trigger] world@.entities[m]).id == es0[m].id,
            world@.contacts == old(world)@.contacts,
            world@.next_index == old(world)@.next_index,
        decreases evs.len() - k,
    {
        let ev = evs[k];
        let ghost cur = world@.entities;
        assert(evs@.take(k + 1).drop_last() =~= evs@.take(k as int));
        assert(evs@.take(k + 1).last() == ev);
        match damage_of_exec(world, ev.collided_entity) {
            Some(d) => {
                match world.find(ev.entity) {
                    Some(i) => {
                        let e = world.entities[i];
                        match e.health {
                            Some(h) => {
                                let ne = EntityRecord {
                                    health: Some(Health { value: sat_sub(h.value, d) }),
                                    ..e
                                };
                                world.entities.set(i, ne);
                            },
                            None => {},
                        }
                        assert(world@.entities =~= damage_one(cur, ev));
                    },
                    None => {
                        assert(world@.entities =~= damage_one(cur, ev));
                    },
                }
            },
            None => {},
        }
        k += 1;
    }
    assert(evs@.take(evs.len() as int) =~= evs@);
}

proof fn lemma_collides_symmetric(a: EntityRecord, b: EntityRecord)
    ensures
        collides(a, b) == collides(b, a),
{
    let pa = a.transform.translation;
    let pb = b.transform.translation;
    assert(sq(pa.x - pb.x) == sq(pb.x - pa.x)) by (nonlinear_arith);
    assert(sq(pa.y - pb.y) == sq(pb.y - pa.y)) by (nonlinear_arith);
    assert(sq(pa.z - pb.z) == sq(pb.z - pa.z)) by (nonlinear_arith);
}

proof fn lemma_hits(es: Seq<EntityRecord>, i: int, n: int, id: Entity)
    requires
        0 <= i < es.len(),
        0 <= n <= es.len(),
    ensures
        hits(es, i, n).contains(id) <==> exists|k: int|
            0 <= k < n && k != i && collides(es[i], es[k]) && es[k].id == id,
    decreases n,
{
    if n > 0 {
        lemma_hits(es, i, n - 1, id);
        let prev = hits(es, i, n - 1);
        if n - 1 != i && collides(es[i], es[n - 1]) {
            assert(hits(es, i, n) == prev.push(es[n - 1].id));
            if prev.contains(id) {
                let j = choose|j: int| 0 <= j < prev.len() && prev[j] == id;
                assert(hits(es, i, n)[j] == id);
            }
            if es[n - 1].id == id {
                assert(hits(es, i, n)[prev.len() as int] == id);
            }
            if hits(es, i, n).contains(id) {
                let j = choose|j: int| 0 <= j < hits(es, i, n).len() && hits(es, i, n)[j] == id;
                if j < prev.len() {
                    assert(prev[j] == id);
                }
            }
        }
    }
}

/// Overlap is symmetric: after a detection phase, the overlap list of `a`
/// holds `b` exactly when the overlap list of `b` holds `a`.
pub proof fn overlap_symmetric(w: WorldView, a: int, b: int)
    requires
        w.wf(),
        0 <= a < w.entities.len(),
        0 <= b < w.entities.len(),
        a != b,
    ensures
        detect_spec(w).contacts[a].contains(w.entities[b].id) <==> detect_spec(
            w,
        ).contacts[b].contains(w.entities[a].id),
{
    let es = w.entities;
    let n = es.len() as int;
    lemma_hits(es, a, n, es[b].id);
    lemma_hits(es, b, n, es[a].id);
    lemma_collides_symmetric(es[a], es[b]);
    if hits(es, a, n).contains(es[b].id) {
        let k = choose|k: int| 0 <= k < n && k != a && collides(es[a], es[k]) && es[k].id == es[b].id;
        assert(k == b);
    }
    if hits(es, b, n).contains(es[a].id) {
        let k = choose|k: int| 0 <= k < n && k != b && collides(es[b], es[k]) && es[k].id == es[a].id;
        assert(k == a);
    }
}

/// No entity is ever in its own overlap list after a detection phase.
pub proof fn no_self_overlap(w: WorldView, a: int)
    requires
        w.wf(),
        0 <= a < w.entities.len(),
    ensures
        !detect_spec(w).contacts[a].contains(w.entities[a].id),
{
    let es = w.entities;
    lemma_hits(es, a, es.len() as int, es[a].id);
}

proof fn lemma_first_foreign(es: Seq<EntityRecord>, os: Seq<Entity>, r: Role)
    ensures
        first_foreign(es, os, r) matches Some(o) ==> !same_role(es, o, r),
    decreases os.len(),
{
    if os.len() > 0 {
        lemma_first_foreign(es, os.skip(1), r);
    }
}

proof fn lemma_events(es: Seq<EntityRecord>, cs: Seq<Seq<Entity>>, r: Role, n: int)
    requires
        0 <= n <= es.len(),
        cs.len() == es.len(),
    ensures
        forall|p: int|
            0 <= p < collision_events(es, cs, r, n).len() ==> exists|k: int|
                0 <= k < n && es[k].id == (#[trigger] collision_events(es, cs, r, n)[p]).entity
                    && es[k].role == r && !same_role(
                    es,
                    collision_events(es, cs, r, n)[p].collided_entity,
                    r,
                ),
        unique_ids(es) ==> forall|p: int, q: int|
            0 <= p < q < collision_events(es, cs, r, n).len() ==> (#[trigger] collision_events(
                es,
                cs,
                r,
                n,
            )[p]).entity != (#[trigger] collision_events(es, cs, r, n)[q]).entity,
    decreases n,
{
    if n > 0 {
        lemma_events(es, cs, r, n - 1);
        lemma_first_foreign(es, cs[n - 1], r);
        let prev = collision_events(es, cs, r, n - 1);
        let cur = collision_events(es, cs, r, n);
        assert forall|p: int| 0 <= p < cur.len() implies exists|k: int|
            0 <= k < n && es[k].id == (#[trigger] cur[p]).entity && es[k].role == r
                && !same_role(es, cur[p].collided_entity, r) by {
            if p < prev.len() {
                assert(cur[p] == prev[p]);
                let k = choose|k: int|
                    0 <= k < n - 1 && es[k].id == prev[p].entity && es[k].role == r
                        && !same_role(es, prev[p].collided_entity, r);
            } else {
                assert(es[n - 1].id == cur[p].entity);
            }
        }
        if unique_ids(es) {
            assert forall|p: int, q: int| 0 <= p < q < cur.len() implies (#[trigger] cur[p]).entity
                != (#[trigger] cur[q]).entity by {
                if q < prev.len() {
                    assert(cur[p] == prev[p] && cur[q] == prev[q]);
                } else {
                    assert(cur[p] == prev[p]);
                    let k = choose|k: int|
                        0 <= k < n - 1 && es[k].id == prev[p].entity && es[k].role == r
                            && !same_role(es, prev[p].collided_entity, r);
                    assert(cur[q].entity == es[n - 1].id);
                }
            }
        }
    }
}

/// Same-role immunity: the resolver never sends a notice from one entity to
/// another that carries the same role and a collider, so neither loses
/// health on account of the other.
pub proof fn same_role_immunity(w: WorldView, r: Role, a: int, b: int)
    requires
        w.wf(),
        0 <= a < w.entities.len(),
        0 <= b < w.entities.len(),
        w.entities[a].role == w.entities[b].role,
        w.entities[a].collider is Some,
        w.entities[b].collider is Some,
    ensures
        forall|p: int|
            0 <= p < events_for(w, r).len() && (#[trigger] events_for(w, r)[p]).entity
                == w.entities[a].id ==> events_for(w, r)[p].collided_entity != w.entities[b].id,
{
    let es = w.entities;
    let evs = events_for(w, r);
    lemma_events(es, w.contacts, r, es.len() as int);
    assert forall|p: int|
        0 <= p < evs.len() && (#[trigger] evs[p]).entity == es[a].id implies evs[p].collided_entity
        != es[b].id by {
        let k = choose|k: int|
            0 <= k < es.len() && es[k].id == evs[p].entity && es[k].role == r && !same_role(
                es,
                evs[p].collided_entity,
                r,
            );
        assert(k == a);
        if evs[p].collided_entity == es[b].id {
            assert(same_role(es, es[b].id, r));
        }
    }
}

/// At most one notice per entity and frame: the resolver for a role never
/// names the same entity twice, however many entities it overlaps.
pub proof fn at_most_one_notice(w: WorldView, r: Role)
    requires
        w.wf(),
    ensures
        forall|p: int, q: int|
            0 <= p < q < events_for(w, r).len() ==> (#[trigger] events_for(w, r)[p]).entity
                != (#[trigger] events_for(w, r)[q]).entity,
{
    lemma_events(w.entities, w.contacts, r, w.entities.len() as int);
}

/// At most one notice per entity and frame across all resolvers: the notices
/// of the three roles, taken together as the damage step consumes them,
/// never name the same entity twice, since each entity carries one role.
pub proof fn at_most_one_notice_per_frame(w: WorldView)
    requires
        w.wf(),
    ensures
        ({
            let evs = events_for(w, Role::Asteroid) + events_for(w, Role::Spaceship) + events_for(
                w,
                Role::SpaceshipMissile,
            );
            forall|p: int, q: int|
                0 <= p < q < evs.len() ==> (#[trigger] evs[p]).entity != (#[trigger] evs[q]).entity
        }),
{
    let es = w.entities;
    let n = es.len() as int;
    let ea = events_for(w, Role::Asteroid);
    let eb = events_for(w, Role::Spaceship);
    let ec = events_for(w, Role::SpaceshipMissile);
    lemma_events(es, w.contacts, Role::Asteroid, n);
    lemma_events(es, w.contacts, Role::Spaceship, n);
    lemma_events(es, w.contacts, Role::SpaceshipMissile, n);
    let evs = ea + eb + ec;
    assert forall|p: int| 0 <= p < evs.len() implies exists|k: int|
        0 <= k < n && es[k].id == (#[trigger] evs[p]).entity && es[k].role == (if p < ea.len() {
            Role::Asteroid
        } else if p < ea.len() + eb.len() {
            Role::Spaceship
        } else {
            Role::SpaceshipMissile
        }) by {
        if p < ea.len() {
            assert(evs[p] == ea[p]);
            let k = choose|k: int|
                0 <= k < n && es[k].id == ea[p].entity && es[k].role == Role::Asteroid
                    && !same_role(es, ea[p].collided_entity, Role::Asteroid);
        } else if p < ea.len() + eb.len() {
            assert(evs[p] == eb[p - ea.len()]);
            let k = choose|k: int|
                0 <= k < n && es[k].id == eb[p - ea.len()].entity && es[k].role == Role::Spaceship
                    && !same_role(es, eb[p - ea.len()].collided_entity, Role::Spaceship);
        } else {
            let j = p - ea.len() - eb.len();
            assert(evs[p] == ec[j]);
            let k = choose|k: int|
                0 <= k < n && es[k].id == ec[j].entity && es[k].role == Role::SpaceshipMissile
                    && !same_role(es, ec[j].collided_entity, Role::SpaceshipMissile);
        }
    }
    assert forall|p: int, q: int| 0 <= p < q < evs.len() implies (#[trigger] evs[p]).entity
        != (#[trigger] evs[q]).entity by {
        if p < ea.len() && q < ea.len() {
            assert(evs[p] == ea[p] && evs[q] == ea[q]);
        } else if ea.len() <= p && q < ea.len() + eb.len() {
            assert(evs[p] == eb[p - ea.len()] && evs[q] == eb[q - ea.len()]);
        } else if ea.len() + eb.len() <= p {
            assert(evs[p] == ec[p - ea.len() - eb.len()] && evs[q] == ec[q - ea.len() - eb.len()]);
        } else {
            let rp = if p < ea.len() {
                Role::Asteroid
            } else if p < ea.len() + eb.len() {
                Role::Spaceship
            } else {
                Role::SpaceshipMissile
            };
            let rq = if q < ea.len() {
                Role::Asteroid
            } else if q < ea.len() + eb.len() {
                Role::Spaceship
            } else {
                Role::SpaceshipMissile
            };
            let kp = choose|k: int| 0 <= k < n && es[k].id == evs[p].entity && es[k].role == rp;
            let kq = choose|k: int| 0 <= k < n && es[k].id == evs[q].entity && es[k].role == rq;
            assert(rp != rq);
        }
    }
}

/// The damage step leaves an entity untouched unless some notice names it.
pub proof fn damage_needs_notice(es: Seq<EntityRecord>, evs: Seq<CollisionEvent>, m: int)
    requires
        0 <= m < es.len(),
        forall|p: int| 0 <= p < evs.len() ==> (#[trigger] evs[p]).entity != es[m].id,
    ensures
        damage_spec(es, evs).len() == es.len(),
        damage_spec(es, evs)[m] == es[m],
    decreases evs.len(),
{
    if evs.len() > 0 {
        let init = evs.drop_last();
        assert forall|p: int| 0 <= p < init.len() implies (#[trigger] init[p]).entity
            != es[m].id by {
            assert(init[p] == evs[p]);
        }
        damage_needs_notice(es, init, m);
        assert(evs.last() == evs[evs.len() - 1]);
    }
}

/// Installs overlap detection in the detection phase, and the resolvers and the damage step in the update phase.
pub struct CollisionDetectionPlugin;

impl CollisionDetectionPlugin {
    pub fn build(&self, app: &mut App)
        requires
            old(app)@.wf(),
        ensures
            final(app)@ == (AppView { plugins: Plugins { collision_detection: true, ..old(app)@.plugins }, ..old(app)@ }),
            final(app)@.wf(),
    {
        app.plugins.collision_detection = true;
    }
}

} // verus!
