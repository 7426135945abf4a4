//! The stage scheduler: the fixed order of work within a frame.

use vstd::prelude::*;
use crate::astroids::has_clearance;
use crate::astroids::is_asteroid_request;
use crate::astroids::is_search_result;
use crate::astroids::rotate_asteroid;
use crate::astroids::spawn_asteroid;
use crate::astroids::SpawnOutcome;
use crate::astroids::spun;
use crate::collision_detection::collision_detection;
use crate::collision_detection::detected;
use crate::collision_detection::doomed_by_collision;
use crate::despawn::culled;
use crate::despawn::despawn_entities;
use crate::despawn::far_away;
use crate::despawn::lemma_collision_removed;
use crate::despawn::lemma_far_away_removed;
use crate::movement::integrate;
use crate::movement::integrated;
use crate::movement::lemma_idle_step;
use crate::spaceship::player_index;
use crate::spaceship::PressedKeys;
use crate::spaceship::shots;
use crate::spaceship::spaceship_movement_controls;
use crate::spaceship::spaceship_weaon_controls;
use crate::spaceship::steered;
use crate::vector::Vec3;
use crate::world::Command;
use crate::world::EntityId;
use crate::world::EntityState;
use crate::world::flushed;
use crate::world::gone;
use crate::world::has_entity;
use crate::world::lemma_apply_all_keeps;
use crate::world::lemma_apply_all_survivors;
use crate::world::lemma_same_ids_same_entities;
use crate::world::same_ids;
use crate::world::SceneAssets;
use crate::world::valid;
use crate::world::World;
use crate::world::WorldState;

verus! {

/// The stages of a frame. They run in the order despawn, user input, entity
/// updates, collision detection; the flush of the mutation log comes between
/// the despawn stage and user input.
#[derive(Clone, Copy, Debug, PartialEq, Eq, Structural, Hash)]
pub enum InGameSet {
    UserInput,
    EntityUpdates,
    CollisionDetection,
    DespawnEntitys,
}

impl InGameSet {
    /// The place of the stage in the frame, counted from zero.
    pub open spec fn rank(self) -> int {
        match self {
            InGameSet::DespawnEntitys => 0,
            InGameSet::UserInput => 1,
            InGameSet::EntityUpdates => 2,
            InGameSet::CollisionDetection => 3,
        }
    }

    /// The place of the stage in the frame, counted from zero.
    pub fn position(self) -> (r: u8)
        ensures
            r == self.rank(),
    {
        match self {
            InGameSet::DespawnEntitys => 0,
            InGameSet::UserInput => 1,
            InGameSet::EntityUpdates => 2,
            InGameSet::CollisionDetection => 3,
        }
    }

    /// The stage that runs first in a frame.
    pub fn first() -> (s: InGameSet)
        ensures
            s.rank() == 0,
    {
        InGameSet::DespawnEntitys
    }

    /// The stage that runs after this one, if the frame is not over.
    pub fn next(self) -> (s: Option<InGameSet>)
        ensures
            match s {
                Some(following) => following.rank() == self.rank() + 1,
                None => self.rank() == 3,
            },
    {
        match self {
            InGameSet::DespawnEntitys => Some(InGameSet::UserInput),
            InGameSet::UserInput => Some(InGameSet::EntityUpdates),
            InGameSet::EntityUpdates => Some(InGameSet::CollisionDetection),
            InGameSet::CollisionDetection => None,
        }
    }
}

/// What a frame is given from outside.
#[derive(Clone, Copy, Debug, PartialEq, Eq, Structural)]
pub struct FrameInput {
    /// The time since the previous frame, in milliseconds.
    pub dt_ms: u32,
    /// The logical keys held down.
    pub keys: PressedKeys,
    /// The forward axis of the player craft for the yaw it has after this
    /// frame's turn.
    pub heading: Vec3,
    /// The visual models for entities created in this frame.
    pub scene_assets: SceneAssets,
}

/// The state after the user-input stage: the craft is steered, and the shot,
/// if any, is in the log. The weapon reads the craft after the steering.
pub open spec fn after_input(s: WorldState, input: FrameInput) -> WorldState {
    let entities = steered(s.entities, input.keys, input.dt_ms as int, input.heading);
    WorldState {
        entities,
        pending: s.pending + shots(entities, input.keys, input.scene_assets),
        ..s
    }
}

/// The entities after the motion of the entity-update stage: obstacles spin,
/// then everything is integrated.
pub open spec fn moved(es: Seq<EntityState>, dt: int) -> Seq<EntityState> {
    integrated(spun(es, dt), dt)
}

/// The state in which the entity-update stage of a frame starts: after the
/// despawn stage, the flush and the user-input stage.
pub open spec fn before_updates(s: WorldState, input: FrameInput) -> WorldState {
    after_input(flushed(culled(s)), input)
}

/// The entities at the end of a frame.
pub open spec fn frame_entities(s: WorldState, input: FrameInput) -> Seq<EntityState> {
    detected(moved(before_updates(s, input).entities, input.dt_ms as int))
}

/// The user-input stage: the movement controls, then the weapon controls.
pub fn user_input(world: &mut World, input: &FrameInput)
    requires
        old(world).wf(),
    ensures
        final(world).wf(),
        final(world)@ == after_input(old(world)@, *input),
{
    spaceship_movement_controls(world, &input.keys, input.dt_ms, input.heading);
    spaceship_weaon_controls(world, &input.keys, &input.scene_assets);
}

/// The entity-update stage: the timed obstacle spawn, the rotation animation
/// and the movement integrator. A spawn only enters the log, so the obstacle
/// takes no part in this frame's motion or collision detection.
pub fn entity_updates(world: &mut World, input: &FrameInput) -> (outcome: SpawnOutcome)
    requires
        old(world).wf(),
    ensures
        final(world).wf(),
        final(world)@.entities == moved(old(world)@.entities, input.dt_ms as int),
        final(world)@.next_id == old(world)@.next_id,
        final(world)@.policy == old(world)@.policy,
        final(world)@.timer == old(world)@.timer.after(input.dt_ms as int),
        spawn_result(old(world)@, final(world)@.pending, *input, outcome),
{
    let outcome = spawn_asteroid(world, input.dt_ms, &input.scene_assets);
    rotate_asteroid(world, input.dt_ms);
    integrate(world, input.dt_ms);
    outcome
}

/// How the timed spawn of a frame leaves the log `pending`, starting from the
/// state `s`: it adds one obstacle when the timer fires and there is a player
/// craft, and nothing otherwise.
pub open spec fn spawn_result(
    s: WorldState,
    pending: Seq<Command>,
    input: FrameInput,
    outcome: SpawnOutcome,
) -> bool {
    match outcome {
        SpawnOutcome::Waiting => {
            &&& !s.timer.fires(input.dt_ms as int)
            &&& pending == s.pending
        },
        SpawnOutcome::NoPlayer => {
            &&& s.timer.fires(input.dt_ms as int)
            &&& player_index(s.entities) is None
            &&& pending == s.pending
        },
        SpawnOutcome::Spawned { request, cleared } => {
            &&& s.timer.fires(input.dt_ms as int)
            &&& player_index(s.entities) matches Some(i)
            &&& pending == s.pending.push(Command::Spawn(request))
            &&& is_asteroid_request(request, input.scene_assets)
            &&& cleared == has_clearance(
                request.transform.translation,
                s.entities[i].transform.translation,
            )
            &&& is_search_result(
                s.entities[i].transform.translation,
                request.transform.translation,
            )
        },
    }
}

/// Whether `t` is a state that one frame with the input `input` can leave,
/// starting from `s`. The entities, the identifiers and the timer are
/// determined; the log holds the shot and whatever the timed spawn drew.
pub open spec fn frame_result(s: WorldState, input: FrameInput, t: WorldState) -> bool {
    &&& valid(t)
    &&& t.entities == frame_entities(s, input)
    &&& t.next_id == flushed(culled(s)).next_id
    &&& t.policy == s.policy
    &&& t.timer == s.timer.after(input.dt_ms as int)
    &&& exists|outcome: SpawnOutcome|
        spawn_result(before_updates(s, input), t.pending, input, outcome)
}

/// One frame: the despawn stage on the overlaps of the previous frame, the
/// flush, the user-input stage, the entity-update stage and collision
/// detection on the positions that the frame ends with.
pub fn run_frame(world: &mut World, input: &FrameInput) -> (outcome: SpawnOutcome)
    requires
        old(world).wf(),
    ensures
        final(world).wf(),
        final(world)@.entities == frame_entities(old(world)@, *input),
        final(world)@.next_id == flushed(culled(old(world)@)).next_id,
        final(world)@.policy == old(world)@.policy,
        final(world)@.timer == old(world)@.timer.after(input.dt_ms as int),
        spawn_result(before_updates(old(world)@, *input), final(world)@.pending, *input, outcome),
        frame_result(old(world)@, *input, final(world)@),
{
    despawn_entities(world);
    world.flush();
    user_input(world, input);
    let outcome = entity_updates(world, input);
    collision_detection(world);
    outcome
}

/// Two lists of entities that hold the same identifiers at the same places,
/// each entity where it was.
pub open spec fn same_places(a: Seq<EntityState>, b: Seq<EntityState>) -> bool {
    same_ids(a, b) && forall|i: int|
        0 <= i < a.len() ==> (#[trigger] a[i]).transform.translation == b[i].transform.translation
}

/// The stages after the flush create and destroy nothing: the frame ends with
/// the entities that the flush left, in the same order.
pub proof fn lemma_frame_keeps_ids(s: WorldState, input: FrameInput)
    ensures
        same_ids(frame_entities(s, input), flushed(culled(s)).entities),
        input.dt_ms == 0 ==> same_places(frame_entities(s, input), flushed(culled(s)).entities),
{
    let dt = input.dt_ms as int;
    let kept = flushed(culled(s)).entities;
    let steer = steered(kept, input.keys, dt, input.heading);
    assert(same_places(steer, kept));
    let spin = spun(steer, dt);
    assert(same_places(spin, steer));
    let step = integrated(spin, dt);
    assert(same_ids(step, spin));
    if dt == 0 {
        lemma_idle_step(spin);
    }
    assert(same_places(frame_entities(s, input), step));
}

/// An entity that is gone before a frame is gone after it: no identifier is
/// given twice, so a destroyed entity is in no later entity set.
pub proof fn lemma_frame_keeps_gone(s: WorldState, input: FrameInput, id: EntityId)
    requires
        valid(s),
        gone(s, id),
    ensures
        !has_entity(frame_entities(s, input), id),
        id.0 < flushed(culled(s)).next_id,
{
    lemma_apply_all_keeps(s.entities, s.next_id, culled(s).pending);
    lemma_frame_keeps_ids(s, input);
    lemma_same_ids_same_entities(frame_entities(s, input), flushed(culled(s)).entities, id);
}

/// A fragile entity whose overlap list holds an entity of another type when a
/// frame starts is destroyed by that frame's flush: it is not among the
/// entities the frame ends with, and it is gone for every later frame.
pub proof fn lemma_frame_removes_collided(s: WorldState, input: FrameInput, i: int)
    requires
        valid(s),
        0 <= i < s.entities.len(),
        s.policy.fragile(s.entities[i].kind),
        doomed_by_collision(s.entities[i], s.entities[i].kind),
    ensures
        !has_entity(frame_entities(s, input), s.entities[i].id),
        s.entities[i].id.0 < flushed(culled(s)).next_id,
{
    let id = s.entities[i].id;
    lemma_collision_removed(s, i);
    lemma_apply_all_keeps(s.entities, s.next_id, culled(s).pending);
    lemma_frame_keeps_ids(s, input);
    lemma_same_ids_same_entities(frame_entities(s, input), flushed(culled(s)).entities, id);
}

/// An obstacle or projectile that is beyond the despawn distance when a frame
/// starts is destroyed by that frame's flush, whatever its velocity.
pub proof fn lemma_frame_removes_far_away(s: WorldState, input: FrameInput, i: int)
    requires
        valid(s),
        0 <= i < s.entities.len(),
        far_away(s.entities[i]),
    ensures
        !has_entity(frame_entities(s, input), s.entities[i].id),
        s.entities[i].id.0 < flushed(culled(s)).next_id,
{
    let id = s.entities[i].id;
    lemma_far_away_removed(s, i);
    lemma_apply_all_keeps(s.entities, s.next_id, culled(s).pending);
    lemma_frame_keeps_ids(s, input);
    lemma_same_ids_same_entities(frame_entities(s, input), flushed(culled(s)).entities, id);
}

/// A frame of no elapsed time moves nothing: an entity that is there before
/// and after the frame is where it was.
pub proof fn lemma_idle_frame(s: WorldState, input: FrameInput, i: int, j: int)
    requires
        valid(s),
        input.dt_ms == 0,
        0 <= i < s.entities.len(),
        0 <= j < frame_entities(s, input).len(),
        frame_entities(s, input)[j].id == s.entities[i].id,
    ensures
        frame_entities(s, input)[j].transform.translation == s.entities[i].transform.translation,
{
    let kept = flushed(culled(s)).entities;
    lemma_frame_keeps_ids(s, input);
    lemma_apply_all_survivors(s.entities, s.next_id, culled(s).pending);
    assert(kept[j].id == s.entities[i].id);
    assert(s.entities.contains(kept[j]));
    let m = choose|m: int| 0 <= m < s.entities.len() && s.entities[m] == kept[j];
    assert(m == i);
}

/// Whether `trace` is a run of frames, one for each input: every state but the
/// first is left by a frame that starts from the state before it.
pub open spec fn frame_run(trace: Seq<WorldState>, inputs: Seq<FrameInput>) -> bool {
    &&& trace.len() == inputs.len() + 1
    &&& valid(trace[0])
    &&& forall|k: int|
        0 <= k < inputs.len() ==> frame_result(trace[k], #[trigger] inputs[k], trace[k + 1])
}

/// Whether no time passes in any frame of `inputs`.
pub open spec fn all_idle(inputs: Seq<FrameInput>) -> bool {
    forall|k: int| 0 <= k < inputs.len() ==> (#[trigger] inputs[k]).dt_ms == 0
}

/// A run without its last frame is a run, and a run ends in a valid state.
pub proof fn lemma_run_front(trace: Seq<WorldState>, inputs: Seq<FrameInput>)
    requires
        frame_run(trace, inputs),
    ensures
        valid(trace.last()),
        inputs.len() > 0 ==> frame_run(trace.drop_last(), inputs.drop_last()) && frame_result(
            trace[inputs.len() - 1],
            inputs.last(),
            trace.last(),
        ) && trace.drop_last().last() == trace[inputs.len() - 1],
        all_idle(inputs) && inputs.len() > 0 ==> all_idle(inputs.drop_last()),
{
    let n = inputs.len() as int;
    if n > 0 {
        let front = trace.drop_last();
        let front_inputs = inputs.drop_last();
        assert forall|k: int| 0 <= k < front_inputs.len() implies frame_result(
            front[k],
            #[trigger] front_inputs[k],
            front[k + 1],
        ) by {
            assert(frame_result(trace[k], inputs[k], trace[k + 1]));
        }
        assert(frame_result(trace[n - 1], inputs[n - 1], trace[n]));
        if all_idle(inputs) {
            assert forall|k: int| 0 <= k < front_inputs.len() implies (
            #[trigger] front_inputs[k]).dt_ms == 0 by {
                assert(inputs[k].dt_ms == 0);
            }
        }
    }
}

/// An entity that is gone stays gone through any run of frames.
pub proof fn lemma_run_keeps_gone(trace: Seq<WorldState>, inputs: Seq<FrameInput>, id: EntityId)
    requires
        frame_run(trace, inputs),
        gone(trace[0], id),
    ensures
        gone(trace.last(), id),
    decreases inputs.len(),
{
    lemma_run_front(trace, inputs);
    if inputs.len() > 0 {
        let front = trace.drop_last();
        lemma_run_front(front, inputs.drop_last());
        lemma_run_keeps_gone(front, inputs.drop_last(), id);
        lemma_frame_keeps_gone(front.last(), inputs.last(), id);
    }
}

/// A fragile entity whose overlap list holds an entity of another type is
/// destroyed by the flush of the next frame and is in no entity set after it,
/// however many frames follow.
pub proof fn lemma_collided_never_returns(
    trace: Seq<WorldState>,
    inputs: Seq<FrameInput>,
    i: int,
)
    requires
        frame_run(trace, inputs),
        inputs.len() > 0,
        0 <= i < trace[0].entities.len(),
        trace[0].policy.fragile(trace[0].entities[i].kind),
        doomed_by_collision(trace[0].entities[i], trace[0].entities[i].kind),
    ensures
        gone(trace.last(), trace[0].entities[i].id),
    decreases inputs.len(),
{
    let id = trace[0].entities[i].id;
    lemma_run_front(trace, inputs);
    let front = trace.drop_last();
    if inputs.len() == 1 {
        lemma_frame_removes_collided(trace[0], inputs.last(), i);
    } else {
        lemma_run_front(front, inputs.drop_last());
        lemma_collided_never_returns(front, inputs.drop_last(), i);
        lemma_frame_keeps_gone(front.last(), inputs.last(), id);
    }
}

/// An obstacle or projectile beyond the despawn distance is destroyed by the
/// flush of the next frame and is in no entity set after it.
pub proof fn lemma_far_away_never_returns(
    trace: Seq<WorldState>,
    inputs: Seq<FrameInput>,
    i: int,
)
    requires
        frame_run(trace, inputs),
        inputs.len() > 0,
        0 <= i < trace[0].entities.len(),
        far_away(trace[0].entities[i]),
    ensures
        gone(trace.last(), trace[0].entities[i].id),
    decreases inputs.len(),
{
    let id = trace[0].entities[i].id;
    lemma_run_front(trace, inputs);
    let front = trace.drop_last();
    if inputs.len() == 1 {
        lemma_frame_removes_far_away(trace[0], inputs.last(), i);
    } else {
        lemma_run_front(front, inputs.drop_last());
        lemma_far_away_never_returns(front, inputs.drop_last(), i);
        lemma_frame_keeps_gone(front.last(), inputs.last(), id);
    }
}

/// After any number of frames of no elapsed time, an entity that is still
/// there is where it was at the start.
pub proof fn lemma_idle_frames(trace: Seq<WorldState>, inputs: Seq<FrameInput>, i: int, j: int)
    requires
        frame_run(trace, inputs),
        all_idle(inputs),
        0 <= i < trace[0].entities.len(),
        0 <= j < trace.last().entities.len(),
        trace.last().entities[j].id == trace[0].entities[i].id,
    ensures
        trace.last().entities[j].transform.translation
            == trace[0].entities[i].transform.translation,
    decreases inputs.len(),
{
    let id = trace[0].entities[i].id;
    lemma_run_front(trace, inputs);
    if inputs.len() == 0 {
        assert(j == i);
    } else {
        let front = trace.drop_last();
        let before = front.last();
        lemma_run_front(front, inputs.drop_last());
        if has_entity(before.entities, id) {
            let m = choose|m: int|
                0 <= m < before.entities.len() && (#[trigger] before.entities[m]).id == id;
            lemma_idle_frames(front, inputs.drop_last(), i, m);
            lemma_idle_frame(before, inputs.last(), m, j);
        } else {
            if id.0 < before.next_id {
                lemma_frame_keeps_gone(before, inputs.last(), id);
            } else {
                lemma_next_id_rises(front, inputs.drop_last());
            }
            assert(false);
        }
    }
}

/// Along a run of frames the next identifier never falls.
pub proof fn lemma_next_id_rises(trace: Seq<WorldState>, inputs: Seq<FrameInput>)
    requires
        frame_run(trace, inputs),
    ensures
        trace[0].next_id <= trace.last().next_id,
    decreases inputs.len(),
{
    lemma_run_front(trace, inputs);
    if inputs.len() > 0 {
        let front = trace.drop_last();
        let before = front.last();
        lemma_run_front(front, inputs.drop_last());
        lemma_next_id_rises(front, inputs.drop_last());
        lemma_apply_all_keeps(before.entities, before.next_id, culled(before).pending);
    }
}

} // verus!
