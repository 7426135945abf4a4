use space_shooter::collision_detection::ColliderKind;
use space_shooter::collision_detection::Collidor;
use space_shooter::movement::integrate;
use space_shooter::movement::MovingObjectBundle;
use space_shooter::movement::Transform;
use space_shooter::tuning::HEADING_ONE;
use space_shooter::vector::advanced;
use space_shooter::vector::saturate;
use space_shooter::vector::Vec3;
use space_shooter::world::CullPolicy;
use space_shooter::world::ModelHandle;
use space_shooter::world::World;

fn moving(p: Vec3, v: Vec3, a: Vec3) -> World {
    let mut world = World::new(CullPolicy { player: false, projectile: false, obstacle: false });
    world.spawn(MovingObjectBundle {
        transform: Transform::from_translation(p),
        velocity: v,
        acceleration: a,
        collidor: Collidor::new(1, ColliderKind::Obstacle),
        model: ModelHandle(0),
    });
    world.flush();
    world
}

#[test]
fn integrator_formula_is_exact() {
    let start = Vec3::new(1_000, -2_000, 3_000);
    let speed = Vec3::new(10, 20, -30);
    let push = Vec3::new(1, -2, 3);
    let mut world = moving(start, speed, push);
    integrate(&mut world, 16);
    let e = &world.entities()[0];
    // the velocity gains push * dt, then the position gains velocity * dt
    assert_eq!(e.velocity, Vec3::new(26, -12, 18));
    assert_eq!(e.transform.translation, Vec3::new(1_416, -2_192, 3_288));
    assert_eq!(e.acceleration, push);
    integrate(&mut world, 4);
    let e = &world.entities()[0];
    assert_eq!(e.velocity, Vec3::new(30, -20, 30));
    assert_eq!(e.transform.translation, Vec3::new(1_536, -2_272, 3_408));
}

#[test]
fn zero_elapsed_time_moves_nothing() {
    let start = Vec3::new(5, 6, 7);
    let speed = Vec3::new(1_000, 2_000, 3_000);
    let push = Vec3::new(9, 9, 9);
    let mut world = moving(start, speed, push);
    for _ in 0..25 {
        integrate(&mut world, 0);
    }
    let e = &world.entities()[0];
    assert_eq!(e.transform.translation, start);
    assert_eq!(e.velocity, speed);
}

#[test]
fn integrator_leaves_orientation_and_collider_alone() {
    let mut world = moving(Vec3::new(0, 0, 0), Vec3::new(1, 0, 0), Vec3::zero());
    integrate(&mut world, 10);
    let e = &world.entities()[0];
    assert_eq!(e.transform.yaw, 0);
    assert_eq!(e.transform.roll, 0);
    assert_eq!(e.transform.heading, Vec3::new(0, 0, HEADING_ONE));
    assert_eq!(e.collidor.radius(), 1);
    assert!(e.collidor.colliding_entities().is_empty());
    assert!(world.pending().is_empty());
}

#[test]
fn integrator_saturates_at_the_ends_of_the_range() {
    let mut world = moving(
        Vec3::new(i64::MAX - 5, i64::MIN + 5, 0),
        Vec3::new(1, -1, i64::MAX),
        Vec3::new(0, 0, i64::MAX),
    );
    integrate(&mut world, 10);
    let e = &world.entities()[0];
    assert_eq!(e.velocity, Vec3::new(1, -1, i64::MAX));
    assert_eq!(e.transform.translation, Vec3::new(i64::MAX, i64::MIN, i64::MAX));
}

#[test]
fn saturating_arithmetic() {
    assert_eq!(saturate(0), 0);
    assert_eq!(saturate(i64::MAX as i128 + 1), i64::MAX);
    assert_eq!(saturate(i64::MIN as i128 - 1), i64::MIN);
    assert_eq!(saturate(-17), -17);
    assert_eq!(advanced(3, 4, 5), 23);
    assert_eq!(advanced(3, -4, 5), -17);
    assert_eq!(advanced(i64::MIN, i64::MIN, i64::MAX), i64::MIN);
    assert_eq!(advanced(i64::MIN, i64::MIN, i64::MIN), i64::MAX);
    assert_eq!(advanced(0, i64::MAX, 1), i64::MAX);
}

#[test]
fn distance_comparisons_are_strict() {
    let a = Vec3::new(0, 0, 0);
    let b = Vec3::new(3, 0, 4);
    assert!(!a.is_closer_than(b, 5));
    assert!(a.is_closer_than(b, 6));
    assert!(!a.is_farther_than(b, 5));
    assert!(a.is_farther_than(b, 4));
    assert!(!a.is_closer_than(a, 0));
    assert!(!a.is_farther_than(a, 0));
    let far = Vec3::new(i64::MAX, i64::MAX, i64::MAX);
    let near = Vec3::new(i64::MIN, i64::MIN, i64::MIN);
    assert!(far.is_farther_than(near, u64::MAX));
    assert!(!far.is_closer_than(near, u64::MAX));
}
