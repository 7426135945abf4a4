//! The lifecycle manager: the distance cull and the despawn stage.

use vstd::prelude::*;
use crate::collision_detection::ColliderKind;
use crate::collision_detection::collision_culls;
use crate::collision_detection::despawn_on_collision;
use crate::collision_detection::doomed_by_collision;
use crate::tuning::DESPAWN_DISTANCE;
use crate::vector::farther_than;
use crate::vector::Vec3;
use crate::world::Command;
use crate::world::CullPolicy;
use crate::world::despawns;
use crate::world::EntityState;
use crate::world::flushed;
use crate::world::has_entity;
use crate::world::lemma_apply_all_removes;
use crate::world::lemma_apply_all_spares;
use crate::world::lemma_despawns_marks;
use crate::world::lemma_despawns_none;
use crate::world::lemma_despawns_only;
use crate::world::lemma_despawns_step;
use crate::world::valid;
use crate::world::World;
use crate::world::WorldState;

verus! {

/// Whether the distance cull destroys `e`: it is an obstacle or a projectile,
/// and it is farther from the origin than the despawn distance. The player
/// craft is exempt. Where the entity is heading plays no part.
pub open spec fn far_away(e: EntityState) -> bool {
    (e.kind == ColliderKind::Obstacle || e.kind == ColliderKind::Projectile) && farther_than(
        e.transform.translation,
        Vec3::origin(),
        DESPAWN_DISTANCE as int,
    )
}

/// The despawn requests of the distance cull.
pub open spec fn distance_culls(es: Seq<EntityState>) -> Seq<Command> {
    despawns(es, |e: EntityState| far_away(e))
}

/// The despawn requests of the collision cull for `kind`, if that type is
/// fragile under `policy`.
pub open spec fn fragile_culls(es: Seq<EntityState>, policy: CullPolicy, kind: ColliderKind) -> Seq<
    Command,
> {
    if policy.fragile(kind) {
        collision_culls(es, kind)
    } else {
        Seq::empty()
    }
}

/// All despawn requests of one despawn stage: the distance cull, then the
/// collision cull for each fragile type.
pub open spec fn cull_requests(es: Seq<EntityState>, policy: CullPolicy) -> Seq<Command> {
    distance_culls(es) + fragile_culls(es, policy, ColliderKind::Obstacle) + fragile_culls(
        es,
        policy,
        ColliderKind::Player,
    ) + fragile_culls(es, policy, ColliderKind::Projectile)
}

/// The state after the despawn stage: the requests are in the log, and no
/// entity has been touched yet.
pub open spec fn culled(s: WorldState) -> WorldState {
    WorldState { pending: s.pending + cull_requests(s.entities, s.policy), ..s }
}

/// The distance cull: asks for the destruction of every obstacle and every
/// projectile that is farther from the origin than the despawn distance.
pub fn despawn_far_away_entities(world: &mut World)
    requires
        old(world).wf(),
    ensures
        final(world).wf(),
        final(world)@ == (WorldState {
            pending: old(world)@.pending + distance_culls(old(world)@.entities),
            ..old(world)@
        }),
{
    let ghost es = world@.entities;
    let ghost doomed = |e: EntityState| far_away(e);
    let n = world.len();
    let mut i: usize = 0;
    proof {
        lemma_despawns_none(es, doomed);
        assert(world@.pending =~= old(world)@.pending + despawns(es.take(0), doomed));
    }
    while i < n
        invariant
            world.wf(),
            es == old(world)@.entities,
            doomed == |e: EntityState| far_away(e),
            n == es.len(),
            i <= n,
            world@ == (WorldState {
                pending: old(world)@.pending + despawns(es.take(i as int), doomed),
                ..old(world)@
            }),
        decreases n - i,
    {
        proof {
            lemma_despawns_step(es, doomed, i as int);
        }
        let e = world.entity(i);
        let transient = match e.collidor.kind() {
            ColliderKind::Player => false,
            ColliderKind::Projectile => true,
            ColliderKind::Obstacle => true,
        };
        if transient && e.transform.translation.is_farther_than(Vec3::zero(), DESPAWN_DISTANCE) {
            world.mark(i);
            assert(world@.pending =~= old(world)@.pending + despawns(
                es.take(i as int + 1),
                doomed,
            ));
        }
        i += 1;
    }
    assert(es.take(n as int) =~= es);
}

/// The despawn stage: runs the distance cull and the collision cull of every
/// fragile type on the overlaps that the last detection left. The requests
/// wait in the log; no entity is destroyed before the flush.
pub fn despawn_entities(world: &mut World)
    requires
        old(world).wf(),
    ensures
        final(world).wf(),
        final(world)@ == culled(old(world)@),
{
    let policy = world.policy();
    let ghost es = world@.entities;
    despawn_far_away_entities(world);
    if policy.is_fragile(ColliderKind::Obstacle) {
        despawn_on_collision(world, ColliderKind::Obstacle);
    }
    if policy.is_fragile(ColliderKind::Player) {
        despawn_on_collision(world, ColliderKind::Player);
    }
    if policy.is_fragile(ColliderKind::Projectile) {
        despawn_on_collision(world, ColliderKind::Projectile);
    }
    assert(world@.pending =~= old(world)@.pending + cull_requests(es, policy));
}

/// An obstacle or projectile beyond the despawn distance is gone after the
/// despawn stage and the flush that follows it.
pub proof fn lemma_far_away_removed(s: WorldState, i: int)
    requires
        valid(s),
        0 <= i < s.entities.len(),
        far_away(s.entities[i]),
    ensures
        !has_entity(flushed(culled(s)).entities, s.entities[i].id),
{
    let id = s.entities[i].id;
    lemma_despawns_marks(s.entities, |e: EntityState| far_away(e), i);
    let culls = distance_culls(s.entities);
    let k = choose|k: int| 0 <= k < culls.len() && culls[k] == Command::Despawn(id);
    let cmds = culled(s).pending;
    assert(cmds[s.pending.len() + k] == Command::Despawn(id));
    lemma_apply_all_removes(s.entities, s.next_id, cmds, id);
}

/// An entity of a fragile type that overlaps an entity of another type is gone
/// after the despawn stage and the flush that follows it.
pub proof fn lemma_collision_removed(s: WorldState, i: int)
    requires
        valid(s),
        0 <= i < s.entities.len(),
        s.policy.fragile(s.entities[i].kind),
        doomed_by_collision(s.entities[i], s.entities[i].kind),
    ensures
        !has_entity(flushed(culled(s)).entities, s.entities[i].id),
{
    let id = s.entities[i].id;
    let kind = s.entities[i].kind;
    lemma_despawns_marks(s.entities, |e: EntityState| doomed_by_collision(e, kind), i);
    let culls = collision_culls(s.entities, kind);
    let k = choose|k: int| 0 <= k < culls.len() && culls[k] == Command::Despawn(id);
    let cmds = culled(s).pending;
    let a = s.pending.len() + distance_culls(s.entities).len();
    let b = a + fragile_culls(s.entities, s.policy, ColliderKind::Obstacle).len();
    let c = b + fragile_culls(s.entities, s.policy, ColliderKind::Player).len();
    match kind {
        ColliderKind::Obstacle => {
            assert(cmds[a + k] == Command::Despawn(id));
        },
        ColliderKind::Player => {
            assert(cmds[b + k] == Command::Despawn(id));
        },
        ColliderKind::Projectile => {
            assert(cmds[c + k] == Command::Despawn(id));
        },
    }
    lemma_apply_all_removes(s.entities, s.next_id, cmds, id);
}

/// The despawn stage and the flush destroy nothing else: an entity that is
/// within the despawn distance or is the player craft, that is not of a
/// fragile type or overlaps nothing of another type, and whose destruction was
/// not pending already, is there after the flush as it was. So an overlap
/// between entities of one type destroys neither.
pub proof fn lemma_spared(s: WorldState, i: int)
    requires
        valid(s),
        0 <= i < s.entities.len(),
        !far_away(s.entities[i]),
        !(s.policy.fragile(s.entities[i].kind) && doomed_by_collision(
            s.entities[i],
            s.entities[i].kind,
        )),
        forall|k: int|
            0 <= k < s.pending.len() ==> #[trigger] s.pending[k] != Command::Despawn(
                s.entities[i].id,
            ),
    ensures
        flushed(culled(s)).entities.contains(s.entities[i]),
{
    let e = s.entities[i];
    let es = s.entities;
    let cmds = culled(s).pending;
    let far = distance_culls(es);
    let obstacles = fragile_culls(es, s.policy, ColliderKind::Obstacle);
    let players = fragile_culls(es, s.policy, ColliderKind::Player);
    let projectiles = fragile_culls(es, s.policy, ColliderKind::Projectile);
    assert forall|k: int| 0 <= k < far.len() implies #[trigger] far[k] != Command::Despawn(
        e.id,
    ) by {
        lemma_despawns_only(es, |x: EntityState| far_away(x), k);
    }
    lemma_fragile_culls_spare(s, i, ColliderKind::Obstacle);
    lemma_fragile_culls_spare(s, i, ColliderKind::Player);
    lemma_fragile_culls_spare(s, i, ColliderKind::Projectile);
    assert forall|k: int| 0 <= k < cmds.len() implies #[trigger] cmds[k] != Command::Despawn(
        e.id,
    ) by {
        let a = s.pending.len();
        let b = a + far.len();
        let c = b + obstacles.len();
        let d = c + players.len();
        if k < a {
            assert(cmds[k] == s.pending[k]);
        } else if k < b {
            assert(cmds[k] == far[k - a]);
        } else if k < c {
            assert(cmds[k] == obstacles[k - b]);
        } else if k < d {
            assert(cmds[k] == players[k - c]);
        } else {
            assert(cmds[k] == projectiles[k - d]);
        }
    }
    assert(es.contains(e));
    lemma_apply_all_spares(es, s.next_id, cmds, e);
}

/// The collision cull for `kind` asks nothing of an entity that is not of a
/// fragile type or overlaps nothing of another type.
proof fn lemma_fragile_culls_spare(s: WorldState, i: int, kind: ColliderKind)
    requires
        valid(s),
        0 <= i < s.entities.len(),
        !(s.policy.fragile(s.entities[i].kind) && doomed_by_collision(
            s.entities[i],
            s.entities[i].kind,
        )),
    ensures
        forall|k: int|
            0 <= k < fragile_culls(s.entities, s.policy, kind).len() ==> #[trigger] fragile_culls(
                s.entities,
                s.policy,
                kind,
            )[k] != Command::Despawn(s.entities[i].id),
{
    let es = s.entities;
    let culls = fragile_culls(es, s.policy, kind);
    assert forall|k: int| 0 <= k < culls.len() implies #[trigger] culls[k] != Command::Despawn(
        es[i].id,
    ) by {
        lemma_despawns_only(es, |x: EntityState| doomed_by_collision(x, kind), k);
    }
}

} // verus!
