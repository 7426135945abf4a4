//! Circular colliders and the all-pairs overlap detector.

use vstd::prelude::*;
use crate::vector::closer_than;
use crate::vector::dist_sq;
use crate::vector::Vec3;
use crate::world::Command;
use crate::world::despawns;
use crate::world::distinct_ids;
use crate::world::EntityId;
use crate::world::EntityState;
use crate::world::lemma_despawns_none;
use crate::world::lemma_despawns_step;
use crate::world::valid;
use crate::world::World;
use crate::world::WorldState;

verus! {

/// The closed set of collider types.
#[derive(Clone, Copy, Debug, PartialEq, Eq, Structural, Hash)]
pub enum ColliderKind {
    Player,
    Projectile,
    Obstacle,
}

/// One entry of an overlap list: the other entity and its collider type.
#[derive(Clone, Copy, Debug, PartialEq, Eq, Structural)]
pub struct Contact {
    pub entity: EntityId,
    pub kind: ColliderKind,
}

/// A circular collider: a radius, a type tag and the entities that overlapped
/// it when overlaps were last computed.
#[derive(Debug)]
pub struct Collidor {
    radius: i64,
    kind: ColliderKind,
    colliding_entities: Vec<Contact>,
}

/// What a collider holds, as plain values.
pub struct ColliderState {
    pub radius: i64,
    pub kind: ColliderKind,
    pub contacts: Seq<Contact>,
}

impl View for Collidor {
    type V = ColliderState;

    closed spec fn view(&self) -> ColliderState {
        ColliderState {
            radius: self.radius,
            kind: self.kind,
            contacts: self.colliding_entities@,
        }
    }
}

/// Whether two circles overlap: their centres are strictly closer than the
/// sum of their radii.
pub open spec fn circles_overlap(pa: Vec3, ra: i64, pb: Vec3, rb: i64) -> bool {
    closer_than(pa, pb, ra + rb)
}

/// Decides whether two circles of positive radius overlap.
pub fn overlap(pa: Vec3, ra: i64, pb: Vec3, rb: i64) -> (b: bool)
    requires
        ra > 0,
        rb > 0,
    ensures
        b == circles_overlap(pa, ra, pb, rb),
{
    let reach: u64 = ra as u64 + rb as u64;
    pa.is_closer_than(pb, reach)
}

impl Collidor {
    /// A collider of the given radius and type that overlaps nothing yet.
    pub fn new(radius: i64, kind: ColliderKind) -> (c: Collidor)
        requires
            radius > 0,
        ensures
            c@ == (ColliderState { radius, kind, contacts: Seq::empty() }),
    {
        Collidor { radius, kind, colliding_entities: Vec::new() }
    }

    /// The radius of the circle.
    pub fn radius(&self) -> (r: i64)
        ensures
            r == self@.radius,
    {
        self.radius
    }

    /// The collider's type tag.
    pub fn kind(&self) -> (k: ColliderKind)
        ensures
            k == self@.kind,
    {
        self.kind
    }

    /// The overlap list as the detector last left it.
    pub fn colliding_entities(&self) -> (list: &Vec<Contact>)
        ensures
            list@ == self@.contacts,
    {
        &self.colliding_entities
    }

    /// Replaces the overlap list, leaving radius and type alone.
    pub(crate) fn replace_contacts(&mut self, list: Vec<Contact>)
        ensures
            final(self)@ == (ColliderState { contacts: list@, ..old(self)@ }),
    {
        self.colliding_entities = list;
    }
}

/// Whether `b` belongs in the overlap list of `a`: it is another entity, and
/// the two circles overlap.
pub open spec fn touches(a: EntityState, b: EntityState) -> bool {
    a.id != b.id && circles_overlap(
        a.transform.translation,
        a.radius,
        b.transform.translation,
        b.radius,
    )
}

/// The entry that stands for `e` in another entity's overlap list.
pub open spec fn contact_of(e: EntityState) -> Contact {
    Contact { entity: e.id, kind: e.kind }
}

/// The overlap list of the entity at `i`: an entry for each entity that it
/// touches, in the order of the store.
pub open spec fn contacts_of(es: Seq<EntityState>, i: int) -> Seq<Contact> {
    es.filter(|o: EntityState| touches(es[i], o)).map_values(|o: EntityState| contact_of(o))
}

/// The entities with every overlap list computed afresh from the current
/// positions and radii. Nothing else changes.
pub open spec fn detected(es: Seq<EntityState>) -> Seq<EntityState> {
    Seq::new(es.len(), |i: int| EntityState { contacts: contacts_of(es, i), ..es[i] })
}

/// Every entry of an overlap list stands for an entity that the owner touches.
pub proof fn lemma_contacts_sound(es: Seq<EntityState>, i: int, k: int)
    requires
        0 <= i < es.len(),
        0 <= k < contacts_of(es, i).len(),
    ensures
        exists|j: int|
            0 <= j < es.len() && touches(es[i], #[trigger] es[j]) && contacts_of(es, i)[k]
                == contact_of(es[j]),
{
    let pred = |o: EntityState| touches(es[i], o);
    let kept = es.filter(pred);
    es.lemma_filter_pred(pred, k);
    assert(kept.contains(kept[k]));
    es.lemma_filter_contains_rev(pred, kept[k]);
    let j = choose|j: int| 0 <= j < es.len() && es[j] == kept[k];
    assert(touches(es[i], es[j]));
}

/// Every entity that the owner touches has an entry in its overlap list.
pub proof fn lemma_contacts_complete(es: Seq<EntityState>, i: int, j: int)
    requires
        0 <= i < es.len(),
        0 <= j < es.len(),
        touches(es[i], es[j]),
    ensures
        contacts_of(es, i).contains(contact_of(es[j])),
{
    let pred = |o: EntityState| touches(es[i], o);
    let kept = es.filter(pred);
    es.lemma_filter_contains(pred, j);
    let k = choose|k: int| 0 <= k < kept.len() && kept[k] == es[j];
    assert(contacts_of(es, i)[k] == contact_of(es[j]));
}

/// Computes the overlap list of the entity at `i`.
fn overlaps_for(world: &World, i: usize) -> (list: Vec<Contact>)
    requires
        world.wf(),
        i < world@.entities.len(),
    ensures
        list@ == contacts_of(world@.entities, i as int),
{
    let ghost es = world@.entities;
    let ghost pred = |o: EntityState| touches(es[i as int], o);
    let ghost entry = |o: EntityState| contact_of(o);
    let n = world.len();
    let me = world.entity(i);
    let mut list: Vec<Contact> = Vec::new();
    let mut j: usize = 0;
    proof {
        reveal(Seq::filter);
        assert(es.take(0).filter(pred).map_values(entry) =~= list@);
    }
    while j < n
        invariant
            valid(world@),
            es == world@.entities,
            n == es.len(),
            i < n,
            j <= n,
            me@ == es[i as int],
            pred == |o: EntityState| touches(es[i as int], o),
            entry == |o: EntityState| contact_of(o),
            list@ == es.take(j as int).filter(pred).map_values(entry),
        decreases n - j,
    {
        let other = world.entity(j);
        proof {
            es.take(j as int).lemma_filter_push(es[j as int], pred);
            assert(es.take(j as int + 1) =~= es.take(j as int).push(es[j as int]));
        }
        let hit = me.id != other.id && overlap(
            me.transform.translation,
            me.collidor.radius(),
            other.transform.translation,
            other.collidor.radius(),
        );
        if hit {
            list.push(Contact { entity: other.id, kind: other.collidor.kind() });
            assert(list@ =~= es.take(j as int + 1).filter(pred).map_values(entry));
        }
        j += 1;
    }
    assert(es.take(n as int) =~= es);
    list
}

/// The collision-detection stage: gives every entity the list of the other
/// entities whose circles overlap its own right now, in place of the list it
/// had.
pub fn collision_detection(world: &mut World)
    requires
        old(world).wf(),
    ensures
        final(world).wf(),
        final(world)@ == (WorldState {
            entities: detected(old(world)@.entities),
            ..old(world)@
        }),
{
    let ghost es = world@.entities;
    let n = world.len();
    let mut lists: Vec<Vec<Contact>> = Vec::new();
    let mut i: usize = 0;
    while i < n
        invariant
            world.wf(),
            world@ == old(world)@,
            es == world@.entities,
            n == es.len(),
            i <= n,
            lists@.len() == i,
            forall|m: int| 0 <= m < i ==> (#[trigger] lists@[m])@ == contacts_of(es, m),
        decreases n - i,
    {
        let list = overlaps_for(world, i);
        lists.push(list);
        i += 1;
    }
    while i > 0
        invariant
            n == es.len(),
            i <= n,
            lists@.len() == i,
            forall|m: int| 0 <= m < i ==> (#[trigger] lists@[m])@ == contacts_of(es, m),
            world@.entities.len() == n,
            forall|m: int| 0 <= m < i ==> (#[trigger] world@.entities[m]) == es[m],
            forall|m: int| i <= m < n ==> (#[trigger] world@.entities[m]) == detected(es)[m],
            world@.pending == old(world)@.pending,
            world@.next_id == old(world)@.next_id,
            world@.timer == old(world)@.timer,
            world@.policy == old(world)@.policy,
            es == old(world)@.entities,
        decreases i,
    {
        i -= 1;
        let list = lists.pop().unwrap();
        world.set_contacts(i, list);
    }
    assert(world@.entities =~= detected(es));
    proof {
        let after = world@.entities;
        assert forall|m: int, k: int|
            0 <= m < after.len() && 0 <= k < after[m].contacts.len() implies (
        #[trigger] after[m].contacts[k]).entity != after[m].id by {
            lemma_contacts_sound(es, m, k);
        }
    }
}

/// Whether the overlap list `list` has an entry for the entity called `id`.
pub open spec fn names(list: Seq<Contact>, id: EntityId) -> bool {
    exists|k: int| 0 <= k < list.len() && (#[trigger] list[k]).entity == id
}

/// Touching is mutual.
pub proof fn lemma_touches_symmetric(a: EntityState, b: EntityState)
    ensures
        touches(a, b) == touches(b, a),
{
    let p = a.transform.translation;
    let q = b.transform.translation;
    assert(dist_sq(p, q) == dist_sq(q, p)) by (nonlinear_arith)
        requires
            dist_sq(p, q) == (p.x - q.x) * (p.x - q.x) + (p.y - q.y) * (p.y - q.y) + (p.z - q.z)
                * (p.z - q.z),
            dist_sq(q, p) == (q.x - p.x) * (q.x - p.x) + (q.y - p.y) * (q.y - p.y) + (q.z - p.z)
                * (q.z - p.z),
    ;
    assert((a.radius + b.radius) * (a.radius + b.radius) == (b.radius + a.radius) * (b.radius
        + a.radius));
}

/// Two different entities are in each other's freshly computed overlap list
/// exactly when their centres are strictly closer than the sum of their radii.
pub proof fn lemma_listed_iff_overlapping(es: Seq<EntityState>, a: int, b: int)
    requires
        distinct_ids(es),
        0 <= a < es.len(),
        0 <= b < es.len(),
        a != b,
    ensures
        names(contacts_of(es, a), es[b].id) <==> circles_overlap(
            es[a].transform.translation,
            es[a].radius,
            es[b].transform.translation,
            es[b].radius,
        ),
        names(detected(es)[a].contacts, detected(es)[b].id) == names(
            contacts_of(es, a),
            es[b].id,
        ),
{
    let list = contacts_of(es, a);
    if names(list, es[b].id) {
        let k = choose|k: int| 0 <= k < list.len() && (#[trigger] list[k]).entity == es[b].id;
        lemma_contacts_sound(es, a, k);
        let j = choose|j: int|
            0 <= j < es.len() && touches(es[a], #[trigger] es[j]) && list[k] == contact_of(es[j]);
        assert(j == b);
    }
    if touches(es[a], es[b]) {
        lemma_contacts_complete(es, a, b);
        let k = choose|k: int| 0 <= k < list.len() && list[k] == contact_of(es[b]);
        assert(list[k].entity == es[b].id);
    }
}

/// Overlap is mutual: after detection, one of two different entities is in the
/// other's overlap list exactly when the other is in its own.
pub proof fn lemma_overlap_symmetric(es: Seq<EntityState>, a: int, b: int)
    requires
        distinct_ids(es),
        0 <= a < es.len(),
        0 <= b < es.len(),
        a != b,
    ensures
        names(detected(es)[a].contacts, detected(es)[b].id) <==> names(
            detected(es)[b].contacts,
            detected(es)[a].id,
        ),
{
    lemma_listed_iff_overlapping(es, a, b);
    lemma_listed_iff_overlapping(es, b, a);
    lemma_touches_symmetric(es[a], es[b]);
}

/// After detection no entity is in its own overlap list.
pub proof fn lemma_no_self_overlap(es: Seq<EntityState>, a: int)
    requires
        0 <= a < es.len(),
    ensures
        !names(detected(es)[a].contacts, detected(es)[a].id),
{
    let list = contacts_of(es, a);
    if names(list, es[a].id) {
        let k = choose|k: int| 0 <= k < list.len() && (#[trigger] list[k]).entity == es[a].id;
        lemma_contacts_sound(es, a, k);
    }
}

/// Whether some entry of the entity's overlap list is of another collider
/// type than its own.
pub open spec fn hit_by_other_kind(e: EntityState) -> bool {
    exists|k: int| 0 <= k < e.contacts.len() && (#[trigger] e.contacts[k]).kind != e.kind
}

/// Whether the collision cull for `kind` destroys `e`: it is of that type, and
/// it overlaps an entity of another type. Overlaps within one type are exempt.
pub open spec fn doomed_by_collision(e: EntityState, kind: ColliderKind) -> bool {
    e.kind == kind && hit_by_other_kind(e)
}

/// The despawn requests of the collision cull for `kind`.
pub open spec fn collision_culls(es: Seq<EntityState>, kind: ColliderKind) -> Seq<Command> {
    despawns(es, |e: EntityState| doomed_by_collision(e, kind))
}

/// An entity that overlaps only entities of its own type is not destroyed by
/// any collision cull.
pub proof fn lemma_same_kind_exempt(e: EntityState, kind: ColliderKind)
    requires
        forall|k: int| 0 <= k < e.contacts.len() ==> (#[trigger] e.contacts[k]).kind == e.kind,
    ensures
        !doomed_by_collision(e, kind),
{
}

/// Decides whether some entry of `list` is of another type than `kind`.
fn any_other_kind(list: &Vec<Contact>, kind: ColliderKind) -> (b: bool)
    ensures
        b == exists|k: int| 0 <= k < list@.len() && (#[trigger] list@[k]).kind != kind,
{
    let n = list.len();
    let mut k: usize = 0;
    while k < n
        invariant
            n == list@.len(),
            k <= n,
            forall|m: int| 0 <= m < k ==> (#[trigger] list@[m]).kind == kind,
        decreases n - k,
    {
        if list[k].kind != kind {
            return true;
        }
        k += 1;
    }
    false
}

/// The collision cull for one collider type: asks for the destruction of every
/// entity of type `kind` whose overlap list holds an entity of another type.
pub fn despawn_on_collision(world: &mut World, kind: ColliderKind)
    requires
        old(world).wf(),
    ensures
        final(world).wf(),
        final(world)@ == (WorldState {
            pending: old(world)@.pending + collision_culls(old(world)@.entities, kind),
            ..old(world)@
        }),
{
    let ghost es = world@.entities;
    let ghost doomed = |e: EntityState| doomed_by_collision(e, kind);
    let n = world.len();
    let mut i: usize = 0;
    proof {
        lemma_despawns_none(es, doomed);
        assert(world@.pending =~= old(world)@.pending + despawns(es.take(0), doomed));
    }
    while i < n
        invariant
            world.wf(),
            es == old(world)@.entities,
            doomed == |e: EntityState| doomed_by_collision(e, kind),
            n == es.len(),
            i <= n,
            world@ == (WorldState {
                pending: old(world)@.pending + despawns(es.take(i as int), doomed),
                ..old(world)@
            }),
        decreases n - i,
    {
        proof {
            lemma_despawns_step(es, doomed, i as int);
        }
        let e = world.entity(i);
        let hit = e.collidor.kind() == kind && any_other_kind(
            e.collidor.colliding_entities(),
            kind,
        );
        if hit {
            world.mark(i);
            assert(world@.pending =~= old(world)@.pending + despawns(
                es.take(i as int + 1),
                doomed,
            ));
        }
        i += 1;
    }
    assert(es.take(n as int) =~= es);
}

} // verus!
