use space_shooter::astroids::direction;
use space_shooter::astroids::is_clear;
use space_shooter::astroids::pick_spawn_point;
use space_shooter::astroids::SpawnPoint;
use space_shooter::astroids::random_asteroid_pos;
use space_shooter::astroids::rotate_asteroid;
use space_shooter::astroids::spawn_asteroid;
use space_shooter::astroids::SpawnOutcome;
use space_shooter::collision_detection::overlap;
use space_shooter::collision_detection::ColliderKind;
use space_shooter::collision_detection::Collidor;
use space_shooter::movement::MovingObjectBundle;
use space_shooter::movement::Transform;
use space_shooter::tuning::ACCELERATION_SCALAR;
use space_shooter::tuning::ASTEROID_RADIUS;
use space_shooter::tuning::ROTATE_SPEED;
use space_shooter::tuning::SPACESHIP_RADIUS;
use space_shooter::tuning::SPAWN_CLEARANCE;
use space_shooter::tuning::SPAWN_MAX_X;
use space_shooter::tuning::SPAWN_MAX_Z;
use space_shooter::tuning::SPAWN_MIN_X;
use space_shooter::tuning::SPAWN_MIN_Z;
use space_shooter::tuning::UNIT;
use space_shooter::tuning::VELOCITY_SCALAR;
use space_shooter::vector::Vec3;
use space_shooter::world::Command;
use space_shooter::world::CullPolicy;
use space_shooter::world::ModelHandle;
use space_shooter::world::SceneAssets;
use space_shooter::world::World;

fn assets() -> SceneAssets {
    SceneAssets { asteroids: ModelHandle(1), spaceship: ModelHandle(2), missiles: ModelHandle(3) }
}

fn world_with(kinds: &[(ColliderKind, Vec3)]) -> World {
    let mut world = World::new(CullPolicy { player: false, projectile: false, obstacle: true });
    for (kind, at) in kinds {
        world.spawn(MovingObjectBundle {
            transform: Transform::from_translation(*at),
            velocity: Vec3::zero(),
            acceleration: Vec3::zero(),
            collidor: Collidor::new(SPACESHIP_RADIUS, *kind),
            model: ModelHandle(9),
        });
    }
    world.flush();
    world
}

fn norm_sq(v: Vec3) -> i128 {
    (v.x as i128).pow(2) + (v.y as i128).pow(2) + (v.z as i128).pow(2)
}

#[test]
fn direction_scales_to_the_magnitude() {
    assert_eq!(direction(3, 4, 10), Vec3::new(6, 0, 8));
    assert_eq!(direction(-3, 4, 10), Vec3::new(-6, 0, 8));
    assert_eq!(direction(3, -4, 1_000), Vec3::new(600, 0, -800));
    assert_eq!(direction(5, 0, 7), Vec3::new(7, 0, 0));
    assert_eq!(direction(0, -5, 7), Vec3::new(0, 0, -7));
    // the length of (1, 1) rounds up to 2
    assert_eq!(direction(1, 1, 1_000), Vec3::new(500, 0, 500));
    // quotients round toward zero
    assert_eq!(direction(-1, 2, 10), Vec3::new(-3, 0, 6));
}

#[test]
fn direction_of_the_zero_draw_is_zero() {
    assert_eq!(direction(0, 0, 5_000_000), Vec3::zero());
}

#[test]
fn direction_never_exceeds_the_magnitude() {
    let draws = [
        (1, 0),
        (999_999, -1_000_000),
        (-1_000_000, -1_000_000),
        (123_456, 654_321),
        (-7, 3),
        (i64::MAX, i64::MIN),
        (i64::MIN, i64::MIN),
    ];
    for (x, z) in draws {
        for m in [ACCELERATION_SCALAR, VELOCITY_SCALAR, i64::MAX] {
            let v = direction(x, z, m);
            assert_eq!(v.y, 0);
            assert!(norm_sq(v) <= (m as i128) * (m as i128));
        }
    }
    // a typical draw loses next to nothing to rounding
    let v = direction(600_000, -800_000, VELOCITY_SCALAR);
    assert_eq!(v, Vec3::new(3_000_000, 0, -4_000_000));
}

#[test]
fn clearance_is_strict() {
    let craft = Vec3::new(0, 0, 0);
    let edge = SPAWN_CLEARANCE as i64;
    assert!(!is_clear(Vec3::new(edge, 0, 0), craft));
    assert!(is_clear(Vec3::new(edge + 1, 0, 0), craft));
    assert!(!is_clear(Vec3::new(0, 0, -edge), craft));
    assert_eq!(SPAWN_CLEARANCE as i64, 2 * (SPACESHIP_RADIUS + ASTEROID_RADIUS));
}

#[test]
fn spawn_point_is_in_the_region_and_clear_of_the_craft() {
    let craft = Vec3::new(0, 0, 10 * UNIT);
    let first = random_asteroid_pos(craft).position;
    let mut all_equal = true;
    for _ in 0..200 {
        let point = random_asteroid_pos(craft);
        let p = point.position;
        assert!(SPAWN_MIN_X <= p.x && p.x < SPAWN_MAX_X);
        assert_eq!(p.y, 0);
        assert!(SPAWN_MIN_Z <= p.z && p.z < SPAWN_MAX_Z);
        assert_eq!(point.cleared, is_clear(p, craft));
        if point.cleared {
            assert!(!overlap(p, ASTEROID_RADIUS, craft, SPACESHIP_RADIUS));
        }
        all_equal = all_equal && p == first;
    }
    assert!(!all_equal);
}

#[test]
fn spawn_point_search_finds_clearance_around_a_craft_inside_the_region() {
    // the craft blocks about half of the region, so a run of failed draws as
    // long as the search allows does not happen
    let craft = Vec3::new(0, 0, 12 * UNIT);
    for _ in 0..50 {
        let point = random_asteroid_pos(craft);
        assert!(point.cleared);
        assert!(is_clear(point.position, craft));
    }
}

#[test]
fn timed_spawn_waits_for_the_timer() {
    let mut world = world_with(&[(ColliderKind::Player, Vec3::new(0, 0, -20 * UNIT))]);
    assert_eq!(spawn_asteroid(&mut world, 999, &assets()), SpawnOutcome::Waiting);
    assert!(world.pending().is_empty());
    assert_eq!(world.timer().elapsed_ms(), 999);
    match spawn_asteroid(&mut world, 1, &assets()) {
        SpawnOutcome::Spawned { request, cleared } => {
            assert!(cleared);
            assert_eq!(world.pending().len(), 1);
            assert_eq!(world.pending()[0], Command::Spawn(request));
            assert_eq!(request.kind, ColliderKind::Obstacle);
            assert_eq!(request.radius, ASTEROID_RADIUS);
            assert_eq!(request.model, ModelHandle(1));
            assert_eq!(request.transform, Transform::from_translation(request.transform.translation));
            let p = request.transform.translation;
            assert!(SPAWN_MIN_X <= p.x && p.x < SPAWN_MAX_X && p.y == 0);
            assert!(SPAWN_MIN_Z <= p.z && p.z < SPAWN_MAX_Z);
            assert!(norm_sq(request.velocity) <= (VELOCITY_SCALAR as i128).pow(2));
            assert!(norm_sq(request.acceleration) <= (ACCELERATION_SCALAR as i128).pow(2));
            assert!(!overlap(p, ASTEROID_RADIUS, Vec3::new(0, 0, -20 * UNIT), SPACESHIP_RADIUS));
        },
        other => panic!("no obstacle was asked for: {:?}", other),
    }
    // the obstacle is not an entity before the flush
    assert_eq!(world.len(), 1);
    world.flush();
    assert_eq!(world.len(), 2);
    assert_eq!(world.entities()[1].collidor.kind(), ColliderKind::Obstacle);
}

#[test]
fn timed_spawn_fires_once_for_many_periods() {
    let mut world = world_with(&[(ColliderKind::Player, Vec3::new(0, 0, -20 * UNIT))]);
    let outcome = spawn_asteroid(&mut world, 7_500, &assets());
    assert!(matches!(outcome, SpawnOutcome::Spawned { .. }));
    assert_eq!(world.pending().len(), 1);
    assert_eq!(world.timer().elapsed_ms(), 500);
    assert_eq!(spawn_asteroid(&mut world, 0, &assets()), SpawnOutcome::Waiting);
    assert_eq!(world.pending().len(), 1);
}

#[test]
fn timed_spawn_needs_exactly_one_player() {
    let mut empty = world_with(&[(ColliderKind::Obstacle, Vec3::zero())]);
    assert_eq!(spawn_asteroid(&mut empty, 1_000, &assets()), SpawnOutcome::NoPlayer);
    assert!(empty.pending().is_empty());
    assert_eq!(empty.timer().elapsed_ms(), 0);
    let mut crowded = world_with(&[
        (ColliderKind::Player, Vec3::zero()),
        (ColliderKind::Player, Vec3::new(UNIT, 0, 0)),
    ]);
    assert_eq!(spawn_asteroid(&mut crowded, 1_000, &assets()), SpawnOutcome::NoPlayer);
    assert!(crowded.pending().is_empty());
}

#[test]
fn only_obstacles_spin() {
    let mut world = world_with(&[
        (ColliderKind::Player, Vec3::zero()),
        (ColliderKind::Obstacle, Vec3::new(50 * UNIT, 0, 0)),
        (ColliderKind::Projectile, Vec3::new(-50 * UNIT, 0, 0)),
    ]);
    rotate_asteroid(&mut world, 16);
    rotate_asteroid(&mut world, 4);
    let rolls: Vec<i64> = world.entities().iter().map(|e| e.transform.roll).collect();
    assert_eq!(rolls, vec![0, 20 * ROTATE_SPEED, 0]);
    assert_eq!(world.entities()[1].transform.yaw, 0);
    assert_eq!(world.entities()[1].transform.translation, Vec3::new(50 * UNIT, 0, 0));
}

#[test]
fn pick_takes_the_first_clear_candidate() {
    let craft = Vec3::new(0, 0, 0);
    let near = Vec3::new(UNIT, 0, UNIT);
    let edge = Vec3::new(SPAWN_CLEARANCE as i64, 0, 0);
    let clear = Vec3::new(20 * UNIT, 0, 0);
    let clearer = Vec3::new(24 * UNIT, 0, 24 * UNIT);
    let fallback = Vec3::new(-UNIT, 0, 0);
    assert_eq!(
        pick_spawn_point(&vec![near, edge, clear, clearer], fallback, craft),
        SpawnPoint { position: clear, cleared: true }
    );
    assert_eq!(
        pick_spawn_point(&vec![clearer, clear], fallback, craft),
        SpawnPoint { position: clearer, cleared: true }
    );
}

#[test]
fn pick_falls_back_when_no_candidate_is_clear() {
    let craft = Vec3::new(0, 0, 0);
    let near = Vec3::new(UNIT, 0, UNIT);
    let edge = Vec3::new(SPAWN_CLEARANCE as i64, 0, 0);
    let fallback = Vec3::new(-UNIT, 0, 0);
    let point = pick_spawn_point(&vec![near, edge, near], fallback, craft);
    assert_eq!(point, SpawnPoint { position: fallback, cleared: false });
    // the fallback is taken unchecked, so it may overlap the craft
    assert!(overlap(point.position, ASTEROID_RADIUS, craft, SPACESHIP_RADIUS));
    // with nothing to choose from, the fallback is taken, and may be clear
    let far = Vec3::new(-24 * UNIT, 0, 0);
    assert_eq!(pick_spawn_point(&vec![], far, craft), SpawnPoint { position: far, cleared: true });
}
