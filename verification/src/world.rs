//! The entity store and its buffered mutation log.

use vstd::prelude::*;
use crate::collision_detection::ColliderKind;
use crate::collision_detection::Collidor;
use crate::collision_detection::Contact;
use crate::movement::MovingObjectBundle;
use crate::movement::Transform;
use crate::spawn_timer::SpawnTimer;
use crate::tuning::SPAWN_TIME_MS;
use crate::vector::Vec3;

verus! {

/// The stable identifier of an entity. An identifier is never given twice.
#[derive(Clone, Copy, Debug, PartialEq, Eq, Structural, Hash)]
pub struct EntityId(pub u64);

/// An opaque reference to a visual model. The simulation only passes it on.
#[derive(Clone, Copy, Debug, PartialEq, Eq, Structural, Hash)]
pub struct ModelHandle(pub u64);

/// The visual models of the three kinds of entity.
#[derive(Clone, Copy, Debug, PartialEq, Eq, Structural)]
pub struct SceneAssets {
    pub asteroids: ModelHandle,
    pub spaceship: ModelHandle,
    pub missiles: ModelHandle,
}

/// One simulated entity.
#[derive(Debug)]
pub struct Entity {
    pub id: EntityId,
    pub transform: Transform,
    pub velocity: Vec3,
    pub acceleration: Vec3,
    pub collidor: Collidor,
    pub model: ModelHandle,
}

/// An entity as plain values.
pub struct EntityState {
    pub id: EntityId,
    pub transform: Transform,
    pub velocity: Vec3,
    pub acceleration: Vec3,
    pub radius: i64,
    pub kind: ColliderKind,
    pub contacts: Seq<Contact>,
    pub model: ModelHandle,
}

impl View for Entity {
    type V = EntityState;

    open spec fn view(&self) -> EntityState {
        EntityState {
            id: self.id,
            transform: self.transform,
            velocity: self.velocity,
            acceleration: self.acceleration,
            radius: self.collidor@.radius,
            kind: self.collidor@.kind,
            contacts: self.collidor@.contacts,
            model: self.model,
        }
    }
}

/// A request to create an entity, as it waits in the mutation log.
#[derive(Clone, Copy, Debug, PartialEq, Eq, Structural)]
pub struct SpawnRequest {
    pub transform: Transform,
    pub velocity: Vec3,
    pub acceleration: Vec3,
    pub radius: i64,
    pub kind: ColliderKind,
    pub model: ModelHandle,
}

/// A buffered mutation of the entity set.
#[derive(Clone, Copy, Debug, PartialEq, Eq, Structural)]
pub enum Command {
    Spawn(SpawnRequest),
    Despawn(EntityId),
}

impl MovingObjectBundle {
    /// The spawn request that creates an entity from this bundle.
    pub open spec fn request(&self) -> SpawnRequest {
        SpawnRequest {
            transform: self.transform,
            velocity: self.velocity,
            acceleration: self.acceleration,
            radius: self.collidor@.radius,
            kind: self.collidor@.kind,
            model: self.model,
        }
    }
}


/// Which collider types are destroyed by a collision with another type.
#[derive(Clone, Copy, Debug, PartialEq, Eq, Structural)]
pub struct CullPolicy {
    pub player: bool,
    pub projectile: bool,
    pub obstacle: bool,
}

impl CullPolicy {
    /// Whether entities of `kind` are fragile under this policy.
    pub open spec fn fragile(self, kind: ColliderKind) -> bool {
        match kind {
            ColliderKind::Player => self.player,
            ColliderKind::Projectile => self.projectile,
            ColliderKind::Obstacle => self.obstacle,
        }
    }

    /// Whether entities of `kind` are fragile under this policy.
    pub fn is_fragile(&self, kind: ColliderKind) -> (b: bool)
        ensures
            b == self.fragile(kind),
    {
        match kind {
            ColliderKind::Player => self.player,
            ColliderKind::Projectile => self.projectile,
            ColliderKind::Obstacle => self.obstacle,
        }
    }
}

/// The whole simulation state as plain values.
pub struct WorldState {
    /// The live entities, oldest first.
    pub entities: Seq<EntityState>,
    /// The mutations that wait for the next flush, in the order requested.
    pub pending: Seq<Command>,
    /// The identifier that the next created entity gets.
    pub next_id: u64,
    pub timer: SpawnTimer,
    pub policy: CullPolicy,
}

/// Whether some entity of `es` has the identifier `id`.
pub open spec fn has_entity(es: Seq<EntityState>, id: EntityId) -> bool {
    exists|i: int| 0 <= i < es.len() && (#[trigger] es[i]).id == id
}

/// No two entities of `es` share an identifier.
pub open spec fn distinct_ids(es: Seq<EntityState>) -> bool {
    forall|i: int, j: int|
        0 <= i < es.len() && 0 <= j < es.len() && i != j ==> (#[trigger] es[i]).id != (
        #[trigger] es[j]).id
}

/// No overlap list in `es` names the entity that owns it.
pub open spec fn no_self_contact(es: Seq<EntityState>) -> bool {
    forall|i: int, k: int|
        0 <= i < es.len() && 0 <= k < es[i].contacts.len() ==> (
        #[trigger] es[i].contacts[k]).entity != es[i].id
}

/// The invariant of the simulation state.
pub open spec fn valid(s: WorldState) -> bool {
    &&& distinct_ids(s.entities)
    &&& forall|i: int| 0 <= i < s.entities.len() ==> (#[trigger] s.entities[i]).id.0 < s.next_id
    &&& forall|i: int| 0 <= i < s.entities.len() ==> (#[trigger] s.entities[i]).radius > 0
    &&& no_self_contact(s.entities)
    &&& forall|k: int|
        0 <= k < s.pending.len() ==> (#[trigger] s.pending[k] matches Command::Spawn(r)
            ==> r.radius > 0)
    &&& s.timer.wf()
}

/// The entity that `req` creates under the identifier `id`. It overlaps
/// nothing until overlaps are next computed.
pub open spec fn entity_from(req: SpawnRequest, id: u64) -> EntityState {
    EntityState {
        id: EntityId(id),
        transform: req.transform,
        velocity: req.velocity,
        acceleration: req.acceleration,
        radius: req.radius,
        kind: req.kind,
        contacts: Seq::empty(),
        model: req.model,
    }
}

/// The entities of `es` other than the one called `id`.
pub open spec fn without(es: Seq<EntityState>, id: EntityId) -> Seq<EntityState> {
    es.filter(|e: EntityState| e.id != id)
}

/// The entities and the next identifier after one buffered mutation.
///
/// A spawn appends a new entity under the next identifier; when the
/// identifiers are used up it is dropped. A despawn removes the entity of that
/// identifier; when there is none it does nothing.
pub open spec fn apply(s: (Seq<EntityState>, u64), cmd: Command) -> (Seq<EntityState>, u64) {
    match cmd {
        Command::Spawn(req) => if s.1 < u64::MAX {
            (s.0.push(entity_from(req, s.1)), (s.1 + 1) as u64)
        } else {
            s
        },
        Command::Despawn(id) => (without(s.0, id), s.1),
    }
}

/// The entities and the next identifier after the mutations `cmds`, applied in
/// order.
pub open spec fn apply_all(es: Seq<EntityState>, next_id: u64, cmds: Seq<Command>) -> (
    Seq<EntityState>,
    u64,
) {
    cmds.fold_left((es, next_id), |s: (Seq<EntityState>, u64), c: Command| apply(s, c))
}

/// The state after the flush: every pending mutation applied, none left.
pub open spec fn flushed(s: WorldState) -> WorldState {
    let r = apply_all(s.entities, s.next_id, s.pending);
    WorldState { entities: r.0, next_id: r.1, pending: Seq::empty(), ..s }
}

/// The simulation: the entity store, the mutation log and the spawn timer.
pub struct World {
    entities: Vec<Entity>,
    pending: Vec<Command>,
    next_id: u64,
    timer: SpawnTimer,
    policy: CullPolicy,
}

impl View for World {
    type V = WorldState;

    closed spec fn view(&self) -> WorldState {
        WorldState {
            entities: Seq::new(self.entities@.len(), |i: int| self.entities@[i]@),
            pending: self.pending@,
            next_id: self.next_id,
            timer: self.timer,
            policy: self.policy,
        }
    }
}

impl World {
    /// The state satisfies the simulation's invariant.
    pub open spec fn wf(&self) -> bool {
        valid(self@)
    }

    /// An empty world under the given cull policy, its spawn timer at zero.
    pub fn new(policy: CullPolicy) -> (w: World)
        ensures
            w.wf(),
            w@.entities == Seq::<EntityState>::empty(),
            w@.pending == Seq::<Command>::empty(),
            w@.next_id == 0,
            w@.timer.period() == SPAWN_TIME_MS,
            w@.timer.elapsed() == 0,
            w@.policy == policy,
    {
        World {
            entities: Vec::new(),
            pending: Vec::new(),
            next_id: 0,
            timer: SpawnTimer::new(SPAWN_TIME_MS),
            policy,
        }
    }

    /// The live entities, oldest first.
    pub fn entities(&self) -> (list: &Vec<Entity>)
        ensures
            list@.len() == self@.entities.len(),
            forall|i: int| 0 <= i < list@.len() ==> (#[trigger] list@[i])@ == self@.entities[i],
    {
        &self.entities
    }

    /// The mutations that wait for the next flush.
    pub fn pending(&self) -> (list: &Vec<Command>)
        ensures
            list@ == self@.pending,
    {
        &self.pending
    }

    /// The cull policy the world was made with.
    pub fn policy(&self) -> (p: CullPolicy)
        ensures
            p == self@.policy,
    {
        self.policy
    }

    /// The spawn timer.
    pub fn timer(&self) -> (t: SpawnTimer)
        ensures
            t == self@.timer,
    {
        self.timer
    }

    /// The number of live entities.
    pub fn len(&self) -> (n: usize)
        ensures
            n == self@.entities.len(),
    {
        self.entities.len()
    }

    /// The entity at position `i` of the store.
    pub fn entity(&self, i: usize) -> (e: &Entity)
        requires
            i < self@.entities.len(),
        ensures
            e@ == self@.entities[i as int],
    {
        &self.entities[i]
    }

    /// Gives the entity at `i` a new transform and velocity.
    pub(crate) fn set_kinematics(&mut self, i: usize, transform: Transform, velocity: Vec3)
        requires
            i < old(self)@.entities.len(),
        ensures
            final(self)@ == (WorldState {
                entities: old(self)@.entities.update(
                    i as int,
                    EntityState { transform, velocity, ..old(self)@.entities[i as int] },
                ),
                ..old(self)@
            }),
    {
        self.entities[i].transform = transform;
        self.entities[i].velocity = velocity;
        assert(self@.entities =~= old(self)@.entities.update(
            i as int,
            EntityState { transform, velocity, ..old(self)@.entities[i as int] },
        ));
    }

    /// Replaces the overlap list of the entity at `i`.
    pub(crate) fn set_contacts(&mut self, i: usize, list: Vec<Contact>)
        requires
            i < old(self)@.entities.len(),
        ensures
            final(self)@ == (WorldState {
                entities: old(self)@.entities.update(
                    i as int,
                    EntityState { contacts: list@, ..old(self)@.entities[i as int] },
                ),
                ..old(self)@
            }),
    {
        self.entities[i].collidor.replace_contacts(list);
        assert(self@.entities =~= old(self)@.entities.update(
            i as int,
            EntityState { contacts: list@, ..old(self)@.entities[i as int] },
        ));
    }

    /// Asks for an entity to be created from `bundle` at the next flush.
    pub fn spawn(&mut self, bundle: MovingObjectBundle)
        requires
            old(self).wf(),
            bundle.collidor@.radius > 0,
        ensures
            final(self).wf(),
            final(self)@ == (WorldState {
                pending: old(self)@.pending.push(Command::Spawn(bundle.request())),
                ..old(self)@
            }),
    {
        let req = SpawnRequest {
            transform: bundle.transform,
            velocity: bundle.velocity,
            acceleration: bundle.acceleration,
            radius: bundle.collidor.radius(),
            kind: bundle.collidor.kind(),
            model: bundle.model,
        };
        self.push_command(Command::Spawn(req));
    }

    /// Asks for the entity called `id` to be destroyed at the next flush.
    /// Asking twice, or for an entity that is gone, does no harm.
    pub fn despawn(&mut self, id: EntityId)
        requires
            old(self).wf(),
        ensures
            final(self).wf(),
            final(self)@ == (WorldState {
                pending: old(self)@.pending.push(Command::Despawn(id)),
                ..old(self)@
            }),
    {
        self.push_command(Command::Despawn(id));
    }

    /// Appends a despawn request for the entity at `i` to the log.
    pub(crate) fn mark(&mut self, i: usize)
        requires
            old(self).wf(),
            i < old(self)@.entities.len(),
        ensures
            final(self).wf(),
            final(self)@ == (WorldState {
                pending: old(self)@.pending.push(
                    Command::Despawn(old(self)@.entities[i as int].id),
                ),
                ..old(self)@
            }),
    {
        let id = self.entities[i].id;
        self.push_command(Command::Despawn(id));
    }

    /// Appends a mutation to the log.
    pub(crate) fn push_command(&mut self, cmd: Command)
        ensures
            final(self)@ == (WorldState { pending: old(self)@.pending.push(cmd), ..old(self)@ }),
    {
        self.pending.push(cmd);
        assert(self@.entities =~= old(self)@.entities);
    }

    /// Advances the spawn timer and says whether it fired.
    pub(crate) fn tick_timer(&mut self, delta_ms: u32) -> (fired: bool)
        requires
            old(self)@.timer.wf(),
        ensures
            final(self)@ == (WorldState {
                timer: old(self)@.timer.after(delta_ms as int),
                ..old(self)@
            }),
            fired == old(self)@.timer.fires(delta_ms as int),
    {
        let fired = self.timer.tick(delta_ms);
        assert(self@.entities =~= old(self)@.entities);
        fired
    }
}

/// A despawn request for each entity of `es` that `doomed` picks, in the order
/// of the store.
pub open spec fn despawns(es: Seq<EntityState>, doomed: spec_fn(EntityState) -> bool) -> Seq<
    Command,
> {
    es.filter(doomed).map_values(|e: EntityState| Command::Despawn(e.id))
}

/// Every entity that `doomed` picks is asked to be destroyed.
pub proof fn lemma_despawns_marks(
    es: Seq<EntityState>,
    doomed: spec_fn(EntityState) -> bool,
    i: int,
)
    requires
        0 <= i < es.len(),
        doomed(es[i]),
    ensures
        despawns(es, doomed).contains(Command::Despawn(es[i].id)),
{
    let kept = es.filter(doomed);
    es.lemma_filter_contains(doomed, i);
    let k = choose|k: int| 0 <= k < kept.len() && kept[k] == es[i];
    assert(despawns(es, doomed)[k] == Command::Despawn(es[i].id));
}

/// Every request in `despawns` asks for an entity that `doomed` picks.
pub proof fn lemma_despawns_only(
    es: Seq<EntityState>,
    doomed: spec_fn(EntityState) -> bool,
    k: int,
)
    requires
        0 <= k < despawns(es, doomed).len(),
    ensures
        exists|i: int|
            0 <= i < es.len() && doomed(#[trigger] es[i]) && despawns(es, doomed)[k]
                == Command::Despawn(es[i].id),
{
    let kept = es.filter(doomed);
    es.lemma_filter_pred(doomed, k);
    assert(kept.contains(kept[k]));
    es.lemma_filter_contains_rev(doomed, kept[k]);
    let i = choose|i: int| 0 <= i < es.len() && es[i] == kept[k];
    assert(doomed(es[i]));
}

/// The requests for the first `j + 1` entities are those for the first `j`,
/// and one more if `doomed` picks the entity at `j`.
pub proof fn lemma_despawns_step(
    es: Seq<EntityState>,
    doomed: spec_fn(EntityState) -> bool,
    j: int,
)
    requires
        0 <= j < es.len(),
    ensures
        despawns(es.take(j + 1), doomed) == if doomed(es[j]) {
            despawns(es.take(j), doomed).push(Command::Despawn(es[j].id))
        } else {
            despawns(es.take(j), doomed)
        },
{
    es.take(j).lemma_filter_push(es[j], doomed);
    assert(es.take(j + 1) =~= es.take(j).push(es[j]));
    if doomed(es[j]) {
        assert(despawns(es.take(j + 1), doomed) =~= despawns(es.take(j), doomed).push(
            Command::Despawn(es[j].id),
        ));
    }
}

/// No entities, no requests.
pub proof fn lemma_despawns_none(es: Seq<EntityState>, doomed: spec_fn(EntityState) -> bool)
    ensures
        despawns(es.take(0), doomed) == Seq::<Command>::empty(),
{
    reveal(Seq::filter);
    assert(despawns(es.take(0), doomed) =~= Seq::<Command>::empty());
}

/// A filter that every element passes keeps the sequence as it is.
proof fn lemma_filter_keeps_all(es: Seq<EntityState>, pred: spec_fn(EntityState) -> bool)
    requires
        forall|i: int| 0 <= i < es.len() ==> pred(#[trigger] es[i]),
    ensures
        es.filter(pred) == es,
    decreases es.len(),
{
    if es.len() == 0 {
        reveal(Seq::filter);
    } else {
        let front = es.drop_last();
        lemma_filter_keeps_all(front, pred);
        front.lemma_filter_push(es.last(), pred);
        assert(front.push(es.last()) =~= es);
    }
}

/// Where no entity is called `id`, removing `id` changes nothing.
pub proof fn lemma_without_absent(es: Seq<EntityState>, id: EntityId)
    requires
        !has_entity(es, id),
    ensures
        without(es, id) == es,
{
    lemma_filter_keeps_all(es, |e: EntityState| e.id != id);
}

/// Where identifiers are distinct, removing the identifier of the entity at
/// `j` takes out that entity and no other.
pub proof fn lemma_without_present(es: Seq<EntityState>, j: int)
    requires
        distinct_ids(es),
        0 <= j < es.len(),
    ensures
        without(es, es[j].id) == es.remove(j),
    decreases es.len(),
{
    let id = es[j].id;
    let pred = |e: EntityState| e.id != id;
    let front = es.drop_last();
    front.lemma_filter_push(es.last(), pred);
    assert(front.push(es.last()) =~= es);
    if j == es.len() - 1 {
        lemma_filter_keeps_all(front, pred);
        assert(es.remove(j) =~= front);
    } else {
        assert(distinct_ids(front));
        lemma_without_present(front, j);
        assert(front[j].id == id);
        assert(es.remove(j) =~= front.remove(j).push(es.last()));
    }
}

/// Applying one more mutation extends the result of those before it.
pub proof fn lemma_apply_all_step(es: Seq<EntityState>, next_id: u64, cmds: Seq<Command>, k: int)
    requires
        0 <= k < cmds.len(),
    ensures
        apply_all(es, next_id, cmds.take(k + 1)) == apply(
            apply_all(es, next_id, cmds.take(k)),
            cmds[k],
        ),
{
    assert(cmds.take(k + 1).drop_last() =~= cmds.take(k));
}

impl World {
    /// The position in the store of the entity called `id`, if it is alive.
    pub fn index_of(&self, id: EntityId) -> (found: Option<usize>)
        ensures
            match found {
                Some(j) => j < self@.entities.len() && self@.entities[j as int].id == id,
                None => !has_entity(self@.entities, id),
            },
    {
        let n = self.entities.len();
        let mut j: usize = 0;
        while j < n
            invariant
                n == self@.entities.len(),
                j <= n,
                forall|i: int| 0 <= i < j ==> (#[trigger] self@.entities[i]).id != id,
            decreases n - j,
        {
            if self.entities[j].id == id {
                return Some(j);
            }
            j += 1;
        }
        None
    }

    /// Applies every pending mutation in the order requested and empties the
    /// log.
    pub fn flush(&mut self)
        requires
            old(self).wf(),
        ensures
            final(self)@ == flushed(old(self)@),
            final(self).wf(),
    {
        let ghost before = self@;
        let n = self.pending.len();
        let mut k: usize = 0;
        while k < n
            invariant
                n == before.pending.len(),
                k <= n,
                valid(before),
                valid(self@),
                self@.pending == before.pending,
                self@.timer == before.timer,
                self@.policy == before.policy,
                (self@.entities, self@.next_id) == apply_all(
                    before.entities,
                    before.next_id,
                    before.pending.take(k as int),
                ),
            decreases n - k,
        {
            let ghost prior = self@;
            let cmd = self.pending[k];
            proof {
                lemma_apply_all_step(before.entities, before.next_id, before.pending, k as int);
            }
            match cmd {
                Command::Spawn(req) => {
                    if self.next_id < u64::MAX {
                        let created = Entity {
                            id: EntityId(self.next_id),
                            transform: req.transform,
                            velocity: req.velocity,
                            acceleration: req.acceleration,
                            collidor: Collidor::new(req.radius, req.kind),
                            model: req.model,
                        };
                        self.entities.push(created);
                        self.next_id = self.next_id + 1;
                        assert(self@.entities =~= prior.entities.push(
                            entity_from(req, prior.next_id),
                        ));
                    }
                },
                Command::Despawn(id) => {
                    match self.index_of(id) {
                        Some(j) => {
                            self.entities.remove(j);
                            proof {
                                lemma_without_present(prior.entities, j as int);
                            }
                            assert(self@.entities =~= prior.entities.remove(j as int));
                        },
                        None => {
                            proof {
                                lemma_without_absent(prior.entities, id);
                            }
                        },
                    }
                },
            }
            k += 1;
        }
        assert(before.pending.take(n as int) =~= before.pending);
        self.pending.clear();
        assert(self@.entities =~= flushed(before).entities);
    }
}

/// Whether the entity called `id` has existed and is gone. Identifiers are
/// given in rising order, so such an entity never comes back.
pub open spec fn gone(s: WorldState, id: EntityId) -> bool {
    id.0 < s.next_id && !has_entity(s.entities, id)
}

/// Every identifier in `es` is below `next_id`.
pub open spec fn ids_below(es: Seq<EntityState>, next_id: u64) -> bool {
    forall|i: int| 0 <= i < es.len() ==> (#[trigger] es[i]).id.0 < next_id
}

/// Removing an identifier leaves no entity of that identifier and brings no
/// entity in: what was absent stays absent, and what held of every identifier
/// still holds.
pub proof fn lemma_without_removes(es: Seq<EntityState>, id: EntityId, next_id: u64)
    ensures
        !has_entity(without(es, id), id),
        forall|other: EntityId| !has_entity(es, other) ==> !has_entity(without(es, id), other),
        ids_below(es, next_id) ==> ids_below(without(es, id), next_id),
        distinct_ids(es) ==> distinct_ids(without(es, id)),
{
    let pred = |e: EntityState| e.id != id;
    let kept = es.filter(pred);
    assert forall|k: int| 0 <= k < kept.len() implies es.contains(#[trigger] kept[k]) && pred(
        kept[k],
    ) by {
        es.lemma_filter_pred(pred, k);
        assert(kept.contains(kept[k]));
        es.lemma_filter_contains_rev(pred, kept[k]);
    }
    assert forall|other: EntityId| !has_entity(es, other) implies !has_entity(kept, other) by {
        if has_entity(kept, other) {
            let k = choose|k: int| 0 <= k < kept.len() && (#[trigger] kept[k]).id == other;
            assert(es.contains(kept[k]));
            let i = choose|i: int| 0 <= i < es.len() && es[i] == kept[k];
            assert(es[i].id == other);
        }
    }
    if ids_below(es, next_id) {
        assert forall|k: int| 0 <= k < kept.len() implies (#[trigger] kept[k]).id.0
            < next_id by {
            assert(es.contains(kept[k]));
            let i = choose|i: int| 0 <= i < es.len() && es[i] == kept[k];
            assert(es[i].id.0 < next_id);
        }
    }
    if distinct_ids(es) {
        if has_entity(es, id) {
            let j = choose|j: int| 0 <= j < es.len() && (#[trigger] es[j]).id == id;
            lemma_without_present(es, j);
            assert(distinct_ids(es.remove(j)));
        } else {
            lemma_without_absent(es, id);
        }
    }
}

/// What the flush keeps true: identifiers stay distinct and below the next
/// one, the next one never falls, and an entity that is gone stays gone.
pub proof fn lemma_apply_all_keeps(es: Seq<EntityState>, next_id: u64, cmds: Seq<Command>)
    requires
        distinct_ids(es),
        ids_below(es, next_id),
    ensures
        distinct_ids(apply_all(es, next_id, cmds).0),
        ids_below(apply_all(es, next_id, cmds).0, apply_all(es, next_id, cmds).1),
        apply_all(es, next_id, cmds).1 >= next_id,
        forall|id: EntityId|
            id.0 < next_id && !has_entity(es, id) ==> !has_entity(
                apply_all(es, next_id, cmds).0,
                id,
            ),
    decreases cmds.len(),
{
    if cmds.len() > 0 {
        let front = cmds.drop_last();
        lemma_apply_all_keeps(es, next_id, front);
        let mid = apply_all(es, next_id, front);
        let end = apply(mid, cmds.last());
        assert(apply_all(es, next_id, cmds) == end);
        match cmds.last() {
            Command::Spawn(req) => {
                if mid.1 < u64::MAX {
                    assert forall|id: EntityId|
                        id.0 < next_id && !has_entity(es, id) implies !has_entity(end.0, id) by {
                        if has_entity(end.0, id) {
                            let i = choose|i: int|
                                0 <= i < end.0.len() && (#[trigger] end.0[i]).id == id;
                            if i < mid.0.len() {
                                assert(mid.0[i].id == id);
                            }
                        }
                    }
                }
            },
            Command::Despawn(target) => {
                lemma_without_removes(mid.0, target, mid.1);
            },
        }
    }
}

/// An entity whose destruction is among the pending mutations is not there
/// after the flush.
pub proof fn lemma_apply_all_removes(
    es: Seq<EntityState>,
    next_id: u64,
    cmds: Seq<Command>,
    id: EntityId,
)
    requires
        distinct_ids(es),
        ids_below(es, next_id),
        id.0 < next_id,
        cmds.contains(Command::Despawn(id)),
    ensures
        !has_entity(apply_all(es, next_id, cmds).0, id),
    decreases cmds.len(),
{
    let front = cmds.drop_last();
    lemma_apply_all_keeps(es, next_id, front);
    let mid = apply_all(es, next_id, front);
    let end = apply(mid, cmds.last());
    assert(apply_all(es, next_id, cmds) == end);
    if cmds.last() == Command::Despawn(id) {
        lemma_without_removes(mid.0, id, mid.1);
    } else {
        let k = choose|k: int| 0 <= k < cmds.len() && cmds[k] == Command::Despawn(id);
        assert(front[k] == Command::Despawn(id));
        lemma_apply_all_removes(es, next_id, front, id);
        match cmds.last() {
            Command::Spawn(req) => {
                if has_entity(end.0, id) {
                    let i = choose|i: int| 0 <= i < end.0.len() && (#[trigger] end.0[i]).id == id;
                    if i < mid.0.len() {
                        assert(mid.0[i].id == id);
                    }
                }
            },
            Command::Despawn(target) => {
                lemma_without_removes(mid.0, target, mid.1);
            },
        }
    }
}

/// The flush changes no entity: whatever is there after it under an
/// identifier given before it was there before, exactly as it is.
pub proof fn lemma_apply_all_survivors(es: Seq<EntityState>, next_id: u64, cmds: Seq<Command>)
    requires
        distinct_ids(es),
        ids_below(es, next_id),
    ensures
        forall|j: int|
            0 <= j < apply_all(es, next_id, cmds).0.len() && (#[trigger] apply_all(
                es,
                next_id,
                cmds,
            ).0[j]).id.0 < next_id ==> es.contains(apply_all(es, next_id, cmds).0[j]),
    decreases cmds.len(),
{
    let end = apply_all(es, next_id, cmds);
    if cmds.len() == 0 {
        assert forall|j: int| 0 <= j < end.0.len() implies es.contains(#[trigger] end.0[j]) by {
            assert(es[j] == end.0[j]);
        }
    } else {
        let front = cmds.drop_last();
        lemma_apply_all_survivors(es, next_id, front);
        lemma_apply_all_keeps(es, next_id, front);
        let mid = apply_all(es, next_id, front);
        assert(end == apply(mid, cmds.last()));
        assert forall|j: int|
            0 <= j < end.0.len() && (#[trigger] end.0[j]).id.0 < next_id implies es.contains(
            end.0[j],
        ) by {
            match cmds.last() {
                Command::Spawn(req) => {
                    if j < mid.0.len() {
                        assert(end.0[j] == mid.0[j]);
                    }
                },
                Command::Despawn(target) => {
                    let pred = |e: EntityState| e.id != target;
                    assert(mid.0.filter(pred).contains(end.0[j]));
                    mid.0.lemma_filter_contains_rev(pred, end.0[j]);
                    let m = choose|m: int| 0 <= m < mid.0.len() && mid.0[m] == end.0[j];
                    assert(mid.0[m].id.0 < next_id);
                },
            }
        }
    }
}

/// Two lists of entities that hold the same identifiers at the same places.
pub open spec fn same_ids(a: Seq<EntityState>, b: Seq<EntityState>) -> bool {
    a.len() == b.len() && forall|i: int| 0 <= i < a.len() ==> (#[trigger] a[i]).id == b[i].id
}

/// Lists with the same identifiers hold the same entities.
pub proof fn lemma_same_ids_same_entities(a: Seq<EntityState>, b: Seq<EntityState>, id: EntityId)
    requires
        same_ids(a, b),
    ensures
        has_entity(a, id) == has_entity(b, id),
{
    if has_entity(a, id) {
        let i = choose|i: int| 0 <= i < a.len() && (#[trigger] a[i]).id == id;
        assert(b[i].id == id);
    }
    if has_entity(b, id) {
        let i = choose|i: int| 0 <= i < b.len() && (#[trigger] b[i]).id == id;
        assert(a[i].id == id);
    }
}

/// The flush destroys only what it is asked to destroy: an entity that no
/// pending mutation asks to despawn is there after it, exactly as it was.
pub proof fn lemma_apply_all_spares(
    es: Seq<EntityState>,
    next_id: u64,
    cmds: Seq<Command>,
    e: EntityState,
)
    requires
        es.contains(e),
        forall|k: int| 0 <= k < cmds.len() ==> #[trigger] cmds[k] != Command::Despawn(e.id),
    ensures
        apply_all(es, next_id, cmds).0.contains(e),
    decreases cmds.len(),
{
    if cmds.len() > 0 {
        let front = cmds.drop_last();
        assert forall|k: int| 0 <= k < front.len() implies #[trigger] front[k]
            != Command::Despawn(e.id) by {
            assert(front[k] == cmds[k]);
        }
        lemma_apply_all_spares(es, next_id, front, e);
        let mid = apply_all(es, next_id, front);
        let end = apply(mid, cmds.last());
        assert(apply_all(es, next_id, cmds) == end);
        let m = choose|m: int| 0 <= m < mid.0.len() && mid.0[m] == e;
        match cmds.last() {
            Command::Spawn(req) => {
                if mid.1 < u64::MAX {
                    assert(end.0[m] == e);
                }
            },
            Command::Despawn(target) => {
                assert(cmds[cmds.len() - 1] != Command::Despawn(e.id));
                mid.0.lemma_filter_contains(|x: EntityState| x.id != target, m);
            },
        }
    }
}

/// Asking twice for the same destruction is the same as asking once.
pub proof fn lemma_despawn_idempotent(s: (Seq<EntityState>, u64), id: EntityId)
    ensures
        apply(apply(s, Command::Despawn(id)), Command::Despawn(id)) == apply(
            s,
            Command::Despawn(id),
        ),
{
    lemma_without_removes(s.0, id, s.1);
    lemma_without_absent(without(s.0, id), id);
}

} // verus!
