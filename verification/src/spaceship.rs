//! The player craft: its creation, its controls and its weapon.

use vstd::prelude::*;
use crate::collision_detection::ColliderKind;
use crate::movement::Transform;
use crate::tuning::MISSILE_FORWARD_SPAWN_SCALAR;
use crate::tuning::MISSILE_RADIUS;
use crate::tuning::MISSILE_SPEED;
use crate::tuning::SPACESHIP_RADIUS;
use crate::tuning::SPACESHIP_ROLL_SPEED;
use crate::tuning::SPACESHIP_ROTATION_SPEED;
use crate::tuning::SPACESHIP_SPEED;
use crate::tuning::STARTING_Z;
use crate::vector::advance;
use crate::vector::advanced;
use crate::vector::Vec3;
use crate::world::Command;
use crate::world::EntityState;
use crate::world::SceneAssets;
use crate::world::SpawnRequest;
use crate::world::World;
use crate::world::WorldState;

verus! {

/// The logical keys that are held down during a frame.
#[derive(Clone, Copy, Debug, PartialEq, Eq, Structural)]
pub struct PressedKeys {
    pub forward: bool,
    pub backward: bool,
    pub turn_left: bool,
    pub turn_right: bool,
    pub roll_left: bool,
    pub roll_right: bool,
    pub fire: bool,
}

/// What the held keys ask of the craft: a thrust along its heading, in
/// lengths per millisecond per heading unit, and a turn rate and a roll rate
/// in microradians per millisecond.
#[derive(Clone, Copy, Debug, PartialEq, Eq, Structural)]
pub struct Steering {
    pub thrust: i64,
    pub yaw_rate: i64,
    pub roll_rate: i64,
}

/// The steering that the held keys ask for. Of two opposing keys held
/// together, forward, left turn and left roll win.
pub open spec fn steering_of(keys: PressedKeys) -> Steering {
    Steering {
        thrust: if keys.forward {
            SPACESHIP_SPEED
        } else if keys.backward {
            (-SPACESHIP_SPEED) as i64
        } else {
            0
        },
        yaw_rate: if keys.turn_left {
            SPACESHIP_ROTATION_SPEED
        } else if keys.turn_right {
            (-SPACESHIP_ROTATION_SPEED) as i64
        } else {
            0
        },
        roll_rate: if keys.roll_left {
            SPACESHIP_ROLL_SPEED
        } else if keys.roll_right {
            (-SPACESHIP_ROLL_SPEED) as i64
        } else {
            0
        },
    }
}

/// Whether the entity at `i` is the player craft and the only one.
pub open spec fn is_sole_player(es: Seq<EntityState>, i: int) -> bool {
    &&& 0 <= i < es.len()
    &&& es[i].kind == ColliderKind::Player
    &&& forall|j: int|
        0 <= j < es.len() && (#[trigger] es[j]).kind == ColliderKind::Player ==> j == i
}

/// Where the player craft is in the store. With no player craft, or with more
/// than one, there is none to speak of.
pub open spec fn player_index(es: Seq<EntityState>) -> Option<int> {
    if exists|i: int| is_sole_player(es, i) {
        Some(choose|i: int| is_sole_player(es, i))
    } else {
        None
    }
}

/// The craft after the movement controls: its velocity is its old heading
/// scaled by the thrust, its yaw and roll advance at the rates asked for over
/// `dt` milliseconds, and `heading` is its heading from now on.
pub open spec fn steered_entity(e: EntityState, keys: PressedKeys, dt: int, heading: Vec3)
    -> EntityState {
    let s = steering_of(keys);
    EntityState {
        velocity: Vec3::origin().advance(e.transform.heading, s.thrust as int),
        transform: Transform {
            translation: e.transform.translation,
            yaw: advance(e.transform.yaw as int, s.yaw_rate as int, dt) as i64,
            roll: advance(e.transform.roll as int, s.roll_rate as int, dt) as i64,
            heading,
        },
        ..e
    }
}

/// The entities after the movement controls. Without a player craft nothing
/// changes.
pub open spec fn steered(es: Seq<EntityState>, keys: PressedKeys, dt: int, heading: Vec3) -> Seq<
    EntityState,
> {
    match player_index(es) {
        Some(i) => es.update(i, steered_entity(es[i], keys, dt, heading)),
        None => es,
    }
}

/// The projectile that a craft fires: it appears ahead of the craft along its
/// heading and flies along it, with no acceleration.
pub open spec fn missile_from(craft: EntityState, assets: SceneAssets) -> SpawnRequest {
    SpawnRequest {
        transform: Transform::at(
            craft.transform.translation.advance(
                craft.transform.heading,
                MISSILE_FORWARD_SPAWN_SCALAR as int,
            ),
        ),
        velocity: Vec3::origin().advance(craft.transform.heading, MISSILE_SPEED as int),
        acceleration: Vec3::origin(),
        radius: MISSILE_RADIUS,
        kind: ColliderKind::Projectile,
        model: assets.missiles,
    }
}

/// What the weapon controls add to the log: one projectile if fire is held and
/// there is a player craft, else nothing.
pub open spec fn shots(es: Seq<EntityState>, keys: PressedKeys, assets: SceneAssets) -> Seq<
    Command,
> {
    match player_index(es) {
        Some(i) => if keys.fire {
            seq![Command::Spawn(missile_from(es[i], assets))]
        } else {
            Seq::empty()
        },
        None => Seq::empty(),
    }
}

/// The request that creates the player craft: at rest at its starting place.
pub open spec fn spaceship_request(assets: SceneAssets) -> SpawnRequest {
    SpawnRequest {
        transform: Transform::at(Vec3 { x: 0, y: 0, z: STARTING_Z }),
        velocity: Vec3::origin(),
        acceleration: Vec3::origin(),
        radius: SPACESHIP_RADIUS,
        kind: ColliderKind::Player,
        model: assets.spaceship,
    }
}

/// The steering that the held keys ask for.
pub fn steering(keys: &PressedKeys) -> (s: Steering)
    ensures
        s == steering_of(*keys),
{
    Steering {
        thrust: if keys.forward {
            SPACESHIP_SPEED
        } else if keys.backward {
            -SPACESHIP_SPEED
        } else {
            0
        },
        yaw_rate: if keys.turn_left {
            SPACESHIP_ROTATION_SPEED
        } else if keys.turn_right {
            -SPACESHIP_ROTATION_SPEED
        } else {
            0
        },
        roll_rate: if keys.roll_left {
            SPACESHIP_ROLL_SPEED
        } else if keys.roll_right {
            -SPACESHIP_ROLL_SPEED
        } else {
            0
        },
    }
}

/// Finds the player craft: the one entity of the player type. With none, or
/// with more than one, the craft counts as not available.
pub fn find_player(world: &World) -> (found: Option<usize>)
    ensures
        match found {
            Some(i) => player_index(world@.entities) == Some(i as int),
            None => player_index(world@.entities) is None,
        },
        found matches Some(i) ==> is_sole_player(world@.entities, i as int),
{
    let ghost es = world@.entities;
    let n = world.len();
    let mut found: Option<usize> = None;
    let mut crowded = false;
    let mut j: usize = 0;
    while j < n
        invariant
            es == world@.entities,
            n == es.len(),
            j <= n,
            crowded ==> exists|a: int, b: int|
                0 <= a < b < j && (#[trigger] es[a]).kind == ColliderKind::Player && (
                #[trigger] es[b]).kind == ColliderKind::Player,
            !crowded ==> match found {
                Some(i) => i < j && es[i as int].kind == ColliderKind::Player && forall|m: int|
                    0 <= m < j && (#[trigger] es[m]).kind == ColliderKind::Player ==> m == i,
                None => forall|m: int| 0 <= m < j ==> (#[trigger] es[m]).kind
                    != ColliderKind::Player,
            },
        decreases n - j,
    {
        let is_player = match world.entity(j).collidor.kind() {
            ColliderKind::Player => true,
            ColliderKind::Projectile => false,
            ColliderKind::Obstacle => false,
        };
        if is_player && !crowded {
            match found {
                Some(i) => {
                    crowded = true;
                    assert(es[i as int].kind == ColliderKind::Player && es[j as int].kind
                        == ColliderKind::Player);
                },
                None => {
                    found = Some(j);
                },
            }
        }
        j += 1;
    }
    if crowded {
        proof {
            let (a, b) = choose|a: int, b: int|
                0 <= a < b < n && (#[trigger] es[a]).kind == ColliderKind::Player && (
                #[trigger] es[b]).kind == ColliderKind::Player;
            assert forall|i: int| !is_sole_player(es, i) by {
                if is_sole_player(es, i) {
                    assert(a == i && b == i);
                }
            }
        }
        return None;
    }
    proof {
        match found {
            Some(i) => {
                assert(is_sole_player(es, i as int));
                let c = choose|c: int| is_sole_player(es, c);
                assert(c == i);
            },
            None => {
                assert forall|i: int| !is_sole_player(es, i) by {}
            },
        }
    }
    found
}

/// Asks for the player craft to be created: at rest at its starting place,
/// with the radius of a craft.
pub fn spawn_spaceship(world: &mut World, scene_assets: &SceneAssets)
    requires
        old(world).wf(),
    ensures
        final(world).wf(),
        final(world)@ == (WorldState {
            pending: old(world)@.pending.push(Command::Spawn(spaceship_request(*scene_assets))),
            ..old(world)@
        }),
{
    let req = SpawnRequest {
        transform: Transform::from_translation(Vec3::new(0, 0, STARTING_Z)),
        velocity: Vec3::zero(),
        acceleration: Vec3::zero(),
        radius: SPACESHIP_RADIUS,
        kind: ColliderKind::Player,
        model: scene_assets.spaceship,
    };
    world.push_command(Command::Spawn(req));
}

/// The movement controls: sets the craft's velocity along its heading from
/// the thrust keys, then turns and rolls it. `heading` must be the forward
/// axis that belongs to the craft's yaw after this turn; it is stored as given.
/// Without a player craft this does nothing.
pub fn spaceship_movement_controls(
    world: &mut World,
    keys: &PressedKeys,
    dt_ms: u32,
    heading: Vec3,
)
    requires
        old(world).wf(),
    ensures
        final(world).wf(),
        final(world)@ == (WorldState {
            entities: steered(old(world)@.entities, *keys, dt_ms as int, heading),
            ..old(world)@
        }),
{
    match find_player(world) {
        Some(i) => {
            let s = steering(keys);
            let craft = world.entity(i);
            let velocity = Vec3::zero().advanced(craft.transform.heading, s.thrust);
            let transform = Transform {
                translation: craft.transform.translation,
                yaw: advanced(craft.transform.yaw, s.yaw_rate, dt_ms as i64),
                roll: advanced(craft.transform.roll, s.roll_rate, dt_ms as i64),
                heading,
            };
            world.set_kinematics(i, transform, velocity);
        },
        None => {},
    }
}

/// The weapon controls: while fire is held, asks for one projectile per frame,
/// ahead of the craft and flying along its heading. Without a player craft
/// this does nothing.
pub fn spaceship_weaon_controls(world: &mut World, keys: &PressedKeys, scene_assets: &SceneAssets)
    requires
        old(world).wf(),
    ensures
        final(world).wf(),
        final(world)@ == (WorldState {
            pending: old(world)@.pending + shots(old(world)@.entities, *keys, *scene_assets),
            ..old(world)@
        }),
{
    if !keys.fire {
        assert(world@.pending =~= old(world)@.pending + shots(
            old(world)@.entities,
            *keys,
            *scene_assets,
        ));
        return ;
    }
    match find_player(world) {
        Some(i) => {
            let craft = world.entity(i);
            let heading = craft.transform.heading;
            let req = SpawnRequest {
                transform: Transform::from_translation(
                    craft.transform.translation.advanced(heading, MISSILE_FORWARD_SPAWN_SCALAR),
                ),
                velocity: Vec3::zero().advanced(heading, MISSILE_SPEED),
                acceleration: Vec3::zero(),
                radius: MISSILE_RADIUS,
                kind: ColliderKind::Projectile,
                model: scene_assets.missiles,
            };
            world.push_command(Command::Spawn(req));
        },
        None => {},
    }
    assert(world@.pending =~= old(world)@.pending + shots(
        old(world)@.entities,
        *keys,
        *scene_assets,
    ));
}

} // verus!
