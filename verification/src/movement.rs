//! Transforms, the spawn bundle and the movement integrator.

use vstd::prelude::*;
use crate::collision_detection::Collidor;
use crate::tuning::HEADING_ONE;
use crate::vector::fits;
use crate::vector::Vec3;
use crate::world::EntityState;
use crate::world::ModelHandle;
use crate::world::World;
use crate::world::WorldState;

verus! {

/// Position and orientation of an entity.
///
/// The orientation is a yaw about the vertical axis followed by a roll about
/// the entity's own forward axis, both in microradians. `heading` is the
/// forward axis that belongs to the yaw, a vector of length `HEADING_ONE`; it
/// is supplied from outside whenever the yaw changes.
#[derive(Clone, Copy, Debug, PartialEq, Eq, Structural)]
pub struct Transform {
    pub translation: Vec3,
    pub yaw: i64,
    pub roll: i64,
    pub heading: Vec3,
}

impl Transform {
    /// The transform at `translation` with no rotation.
    pub open spec fn at(translation: Vec3) -> Transform {
        Transform {
            translation,
            yaw: 0,
            roll: 0,
            heading: Vec3 { x: 0, y: 0, z: HEADING_ONE },
        }
    }

    /// The transform at `translation` with no rotation.
    pub fn from_translation(translation: Vec3) -> (t: Transform)
        ensures
            t == Transform::at(translation),
    {
        Transform { translation, yaw: 0, roll: 0, heading: Vec3 { x: 0, y: 0, z: HEADING_ONE } }
    }
}

/// Everything an entity is created with.
#[derive(Debug)]
pub struct MovingObjectBundle {
    pub transform: Transform,
    pub velocity: Vec3,
    pub acceleration: Vec3,
    pub collidor: Collidor,
    pub model: ModelHandle,
}

/// One entity after a step of `dt` milliseconds: the velocity first advances
/// by the acceleration, then the position advances by the new velocity.
pub open spec fn integrated_entity(e: EntityState, dt: int) -> EntityState {
    let velocity = e.velocity.advance(e.acceleration, dt);
    EntityState {
        velocity,
        transform: Transform {
            translation: e.transform.translation.advance(velocity, dt),
            ..e.transform
        },
        ..e
    }
}

/// Every entity after a step of `dt` milliseconds.
pub open spec fn integrated(es: Seq<EntityState>, dt: int) -> Seq<EntityState> {
    es.map_values(|e: EntityState| integrated_entity(e, dt))
}

/// The entities after `n` steps of `dt` milliseconds each.
pub open spec fn integrated_times(es: Seq<EntityState>, dt: int, n: nat) -> Seq<EntityState>
    decreases n,
{
    if n == 0 {
        es
    } else {
        integrated(integrated_times(es, dt, (n - 1) as nat), dt)
    }
}

/// The movement integrator: advances every entity's velocity by its
/// acceleration and then its position by the new velocity, over `dt_ms`
/// milliseconds. Orientation, colliders and the mutation log are untouched.
pub fn integrate(world: &mut World, dt_ms: u32)
    requires
        old(world).wf(),
    ensures
        final(world).wf(),
        final(world)@ == (WorldState {
            entities: integrated(old(world)@.entities, dt_ms as int),
            ..old(world)@
        }),
{
    let ghost es = world@.entities;
    let n = world.len();
    let mut i: usize = 0;
    while i < n
        invariant
            es == old(world)@.entities,
            n == es.len(),
            i <= n,
            world@.entities.len() == n,
            forall|m: int| 0 <= m < i ==> (#[trigger] world@.entities[m]) == integrated_entity(
                es[m],
                dt_ms as int,
            ),
            forall|m: int| i <= m < n ==> (#[trigger] world@.entities[m]) == es[m],
            world@.pending == old(world)@.pending,
            world@.next_id == old(world)@.next_id,
            world@.timer == old(world)@.timer,
            world@.policy == old(world)@.policy,
        decreases n - i,
    {
        let e = world.entity(i);
        let velocity = e.velocity.advanced(e.acceleration, dt_ms as i64);
        let transform = Transform {
            translation: e.transform.translation.advanced(velocity, dt_ms as i64),
            yaw: e.transform.yaw,
            roll: e.transform.roll,
            heading: e.transform.heading,
        };
        world.set_kinematics(i, transform, velocity);
        i += 1;
    }
    assert(world@.entities =~= integrated(es, dt_ms as int));
}

/// A step of no time changes nothing.
pub proof fn lemma_idle_step(es: Seq<EntityState>)
    ensures
        integrated(es, 0) == es,
{
    assert forall|i: int| 0 <= i < es.len() implies integrated_entity(#[trigger] es[i], 0)
        == es[i] by {
        let e = es[i];
        assert(e.velocity.advance(e.acceleration, 0) == e.velocity);
        assert(e.transform.translation.advance(e.velocity, 0) == e.transform.translation);
    }
    assert(integrated(es, 0) =~= es);
}

/// Any number of steps of no time changes nothing: no position moves.
pub proof fn lemma_idle_steps(es: Seq<EntityState>, n: nat)
    ensures
        integrated_times(es, 0, n) == es,
    decreases n,
{
    if n > 0 {
        lemma_idle_steps(es, (n - 1) as nat);
        lemma_idle_step(es);
    }
}

/// Where nothing saturates, one step of `dt` takes a velocity `v` under an
/// acceleration `a` to `v + a * dt`, and a position `p` to
/// `p + (v + a * dt) * dt`, in each component.
pub proof fn lemma_integrator_exact(e: EntityState, dt: int)
    requires
        fits(e.velocity.x + e.acceleration.x * dt),
        fits(e.velocity.y + e.acceleration.y * dt),
        fits(e.velocity.z + e.acceleration.z * dt),
        fits(e.transform.translation.x + (e.velocity.x + e.acceleration.x * dt) * dt),
        fits(e.transform.translation.y + (e.velocity.y + e.acceleration.y * dt) * dt),
        fits(e.transform.translation.z + (e.velocity.z + e.acceleration.z * dt) * dt),
    ensures
        integrated_entity(e, dt).velocity.x == e.velocity.x + e.acceleration.x * dt,
        integrated_entity(e, dt).velocity.y == e.velocity.y + e.acceleration.y * dt,
        integrated_entity(e, dt).velocity.z == e.velocity.z + e.acceleration.z * dt,
        integrated_entity(e, dt).transform.translation.x == e.transform.translation.x + (
        e.velocity.x + e.acceleration.x * dt) * dt,
        integrated_entity(e, dt).transform.translation.y == e.transform.translation.y + (
        e.velocity.y + e.acceleration.y * dt) * dt,
        integrated_entity(e, dt).transform.translation.z == e.transform.translation.z + (
        e.velocity.z + e.acceleration.z * dt) * dt,
{
}

} // verus!
