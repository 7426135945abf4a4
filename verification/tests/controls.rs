use space_shooter::collision_detection::ColliderKind;
use space_shooter::collision_detection::Collidor;
use space_shooter::movement::MovingObjectBundle;
use space_shooter::movement::Transform;
use space_shooter::spaceship::find_player;
use space_shooter::spaceship::spaceship_movement_controls;
use space_shooter::spaceship::spaceship_weaon_controls;
use space_shooter::spaceship::spawn_spaceship;
use space_shooter::spaceship::steering;
use space_shooter::spaceship::PressedKeys;
use space_shooter::spaceship::Steering;
use space_shooter::tuning::HEADING_ONE;
use space_shooter::tuning::MISSILE_RADIUS;
use space_shooter::tuning::SPACESHIP_RADIUS;
use space_shooter::tuning::UNIT;
use space_shooter::vector::Vec3;
use space_shooter::world::Command;
use space_shooter::world::CullPolicy;
use space_shooter::world::ModelHandle;
use space_shooter::world::SceneAssets;
use space_shooter::world::SpawnRequest;
use space_shooter::world::World;

const NONE: PressedKeys = PressedKeys {
    forward: false,
    backward: false,
    turn_left: false,
    turn_right: false,
    roll_left: false,
    roll_right: false,
    fire: false,
};

fn assets() -> SceneAssets {
    SceneAssets { asteroids: ModelHandle(1), spaceship: ModelHandle(2), missiles: ModelHandle(3) }
}

fn started() -> World {
    let mut world = World::new(CullPolicy { player: true, projectile: false, obstacle: true });
    spawn_spaceship(&mut world, &assets());
    world.flush();
    world
}

fn obstacle(at: Vec3) -> MovingObjectBundle {
    MovingObjectBundle {
        transform: Transform::from_translation(at),
        velocity: Vec3::new(1, 1, 1),
        acceleration: Vec3::zero(),
        collidor: Collidor::new(UNIT, ColliderKind::Obstacle),
        model: ModelHandle(1),
    }
}

#[test]
fn the_craft_starts_at_rest_behind_the_origin() {
    let mut world = World::new(CullPolicy { player: true, projectile: false, obstacle: true });
    spawn_spaceship(&mut world, &assets());
    assert_eq!(world.len(), 0);
    assert_eq!(find_player(&world), None);
    world.flush();
    assert_eq!(find_player(&world), Some(0));
    let craft = world.entity(0);
    assert_eq!(craft.transform, Transform::from_translation(Vec3::new(0, 0, -20 * UNIT)));
    assert_eq!(craft.transform.heading, Vec3::new(0, 0, HEADING_ONE));
    assert_eq!(craft.velocity, Vec3::zero());
    assert_eq!(craft.acceleration, Vec3::zero());
    assert_eq!(craft.collidor.radius(), SPACESHIP_RADIUS);
    assert_eq!(craft.collidor.kind(), ColliderKind::Player);
    assert_eq!(craft.model, ModelHandle(2));
}

#[test]
fn steering_follows_the_keys() {
    assert_eq!(steering(&NONE), Steering { thrust: 0, yaw_rate: 0, roll_rate: 0 });
    let keys = PressedKeys { forward: true, turn_right: true, roll_left: true, ..NONE };
    assert_eq!(steering(&keys), Steering { thrust: 25, yaw_rate: -2_500, roll_rate: 2_500 });
    let keys = PressedKeys { backward: true, turn_left: true, roll_right: true, ..NONE };
    assert_eq!(steering(&keys), Steering { thrust: -25, yaw_rate: 2_500, roll_rate: -2_500 });
    let all = PressedKeys {
        forward: true,
        backward: true,
        turn_left: true,
        turn_right: true,
        roll_left: true,
        roll_right: true,
        fire: true,
    };
    assert_eq!(steering(&all), Steering { thrust: 25, yaw_rate: 2_500, roll_rate: 2_500 });
}

#[test]
fn movement_controls_steer_the_craft() {
    let mut world = started();
    let turned = Vec3::new(600_000, 0, 800_000);
    let keys = PressedKeys { forward: true, turn_left: true, roll_right: true, ..NONE };
    spaceship_movement_controls(&mut world, &keys, 16, turned);
    let craft = world.entity(0);
    // the velocity follows the heading the craft had before the turn
    assert_eq!(craft.velocity, Vec3::new(0, 0, 25_000_000));
    assert_eq!(craft.transform.yaw, 40_000);
    assert_eq!(craft.transform.roll, -40_000);
    assert_eq!(craft.transform.heading, turned);
    assert_eq!(craft.transform.translation, Vec3::new(0, 0, -20 * UNIT));
    let keys = PressedKeys { backward: true, ..NONE };
    spaceship_movement_controls(&mut world, &keys, 16, turned);
    let craft = world.entity(0);
    assert_eq!(craft.velocity, Vec3::new(-15_000_000, 0, -20_000_000));
    assert_eq!(craft.transform.yaw, 40_000);
    spaceship_movement_controls(&mut world, &NONE, 16, turned);
    assert_eq!(world.entity(0).velocity, Vec3::zero());
    assert!(world.pending().is_empty());
}

#[test]
fn movement_controls_leave_other_entities_alone() {
    let mut world = started();
    world.spawn(obstacle(Vec3::new(30 * UNIT, 0, 0)));
    world.flush();
    let keys = PressedKeys { forward: true, turn_left: true, ..NONE };
    spaceship_movement_controls(&mut world, &keys, 10, Vec3::new(HEADING_ONE, 0, 0));
    let other = world.entity(1);
    assert_eq!(other.velocity, Vec3::new(1, 1, 1));
    assert_eq!(other.transform, Transform::from_translation(Vec3::new(30 * UNIT, 0, 0)));
}

#[test]
fn controls_do_nothing_without_a_single_craft() {
    let keys = PressedKeys { forward: true, turn_left: true, fire: true, ..NONE };
    let mut empty = World::new(CullPolicy { player: true, projectile: false, obstacle: true });
    empty.spawn(obstacle(Vec3::zero()));
    empty.flush();
    spaceship_movement_controls(&mut empty, &keys, 16, Vec3::new(HEADING_ONE, 0, 0));
    spaceship_weaon_controls(&mut empty, &keys, &assets());
    assert_eq!(empty.entity(0).velocity, Vec3::new(1, 1, 1));
    assert!(empty.pending().is_empty());

    let mut crowded = started();
    spawn_spaceship(&mut crowded, &assets());
    crowded.flush();
    assert_eq!(find_player(&crowded), None);
    spaceship_movement_controls(&mut crowded, &keys, 16, Vec3::new(HEADING_ONE, 0, 0));
    spaceship_weaon_controls(&mut crowded, &keys, &assets());
    assert_eq!(crowded.entity(0).velocity, Vec3::zero());
    assert_eq!(crowded.entity(0).transform.yaw, 0);
    assert_eq!(crowded.entity(1).transform.heading, Vec3::new(0, 0, HEADING_ONE));
    assert!(crowded.pending().is_empty());
}

#[test]
fn weapon_fires_one_projectile_per_frame_while_held() {
    let mut world = started();
    spaceship_weaon_controls(&mut world, &NONE, &assets());
    assert!(world.pending().is_empty());
    let fire = PressedKeys { fire: true, ..NONE };
    spaceship_weaon_controls(&mut world, &fire, &assets());
    let expected = SpawnRequest {
        transform: Transform::from_translation(Vec3::new(0, 0, -20 * UNIT + 7_500_000_000)),
        velocity: Vec3::new(0, 0, 50_000_000),
        acceleration: Vec3::zero(),
        radius: MISSILE_RADIUS,
        kind: ColliderKind::Projectile,
        model: ModelHandle(3),
    };
    assert_eq!(world.pending().clone(), vec![Command::Spawn(expected)]);
    spaceship_weaon_controls(&mut world, &fire, &assets());
    assert_eq!(world.pending().clone(), vec![Command::Spawn(expected), Command::Spawn(expected)]);
    world.flush();
    assert_eq!(world.len(), 3);
    assert_eq!(world.entity(2).collidor.kind(), ColliderKind::Projectile);
    assert_eq!(find_player(&world), Some(0));
}

#[test]
fn weapon_fires_along_the_heading_after_the_turn() {
    let mut world = started();
    let turned = Vec3::new(-800_000, 0, 600_000);
    let keys = PressedKeys { turn_left: true, fire: true, ..NONE };
    spaceship_movement_controls(&mut world, &keys, 16, turned);
    spaceship_weaon_controls(&mut world, &keys, &assets());
    match world.pending()[0] {
        Command::Spawn(request) => {
            assert_eq!(
                request.transform.translation,
                Vec3::new(-6_000_000_000, 0, -20 * UNIT + 4_500_000_000)
            );
            assert_eq!(request.velocity, Vec3::new(-40_000_000, 0, 30_000_000));
            assert_eq!(request.transform.heading, Vec3::new(0, 0, HEADING_ONE));
        },
        Command::Despawn(_) => panic!("a despawn in place of the shot"),
    }
}
