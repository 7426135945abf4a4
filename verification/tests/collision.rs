use space_shooter::collision_detection::collision_detection;
use space_shooter::collision_detection::overlap;
use space_shooter::collision_detection::ColliderKind;
use space_shooter::collision_detection::Collidor;
use space_shooter::collision_detection::Contact;
use space_shooter::movement::MovingObjectBundle;
use space_shooter::movement::Transform;
use space_shooter::vector::Vec3;
use space_shooter::world::CullPolicy;
use space_shooter::world::EntityId;
use space_shooter::world::ModelHandle;
use space_shooter::world::World;

fn bundle(x: i64, z: i64, radius: i64, kind: ColliderKind) -> MovingObjectBundle {
    MovingObjectBundle {
        transform: Transform::from_translation(Vec3::new(x, 0, z)),
        velocity: Vec3::zero(),
        acceleration: Vec3::zero(),
        collidor: Collidor::new(radius, kind),
        model: ModelHandle(7),
    }
}

fn world_of(bundles: Vec<MovingObjectBundle>) -> World {
    let mut world = World::new(CullPolicy { player: false, projectile: false, obstacle: true });
    for b in bundles {
        world.spawn(b);
    }
    world.flush();
    world
}

fn listed(world: &World, owner: usize, other: u64) -> bool {
    world.entities()[owner]
        .collidor
        .colliding_entities()
        .iter()
        .any(|c| c.entity == EntityId(other))
}

#[test]
fn touching_circles_do_not_overlap() {
    let a = Vec3::new(0, 0, 0);
    let b = Vec3::new(10, 0, 0);
    assert!(!overlap(a, 4, b, 6));
    assert!(overlap(a, 4, b, 7));
    assert!(!overlap(a, 4, b, 5));
}

#[test]
fn overlap_uses_all_three_axes() {
    let a = Vec3::new(0, 0, 0);
    let b = Vec3::new(2, 3, 6);
    // the distance is exactly 7
    assert!(!overlap(a, 3, b, 4));
    assert!(overlap(a, 4, b, 4));
    assert!(overlap(b, 4, a, 4));
}

#[test]
fn overlap_at_the_ends_of_the_range() {
    let a = Vec3::new(i64::MIN, i64::MIN, i64::MIN);
    let b = Vec3::new(i64::MAX, i64::MAX, i64::MAX);
    assert!(!overlap(a, i64::MAX, b, i64::MAX));
    assert!(overlap(a, 1, a, 1));
    let c = Vec3::new(i64::MIN, 0, 0);
    let d = Vec3::new(i64::MAX, 0, 0);
    // the centres are 2^64 - 1 apart, the radii come to 2^64 - 2
    assert!(!overlap(c, i64::MAX, d, i64::MAX));
}

#[test]
fn a_new_collider_overlaps_nothing() {
    let c = Collidor::new(5, ColliderKind::Obstacle);
    assert_eq!(c.radius(), 5);
    assert_eq!(c.kind(), ColliderKind::Obstacle);
    assert!(c.colliding_entities().is_empty());
}

#[test]
fn detection_lists_every_overlapping_other_entity() {
    let mut world = world_of(vec![
        bundle(0, 0, 5, ColliderKind::Player),
        bundle(8, 0, 5, ColliderKind::Obstacle),
        bundle(16, 0, 5, ColliderKind::Projectile),
        bundle(100, 0, 5, ColliderKind::Obstacle),
    ]);
    collision_detection(&mut world);
    let lists: Vec<Vec<Contact>> = world
        .entities()
        .iter()
        .map(|e| e.collidor.colliding_entities().clone())
        .collect();
    assert_eq!(lists[0], vec![Contact { entity: EntityId(1), kind: ColliderKind::Obstacle }]);
    assert_eq!(
        lists[1],
        vec![
            Contact { entity: EntityId(0), kind: ColliderKind::Player },
            Contact { entity: EntityId(2), kind: ColliderKind::Projectile },
        ]
    );
    assert_eq!(lists[2], vec![Contact { entity: EntityId(1), kind: ColliderKind::Obstacle }]);
    assert!(lists[3].is_empty());
}

#[test]
fn overlap_is_mutual_and_never_with_itself() {
    let mut world = world_of(vec![
        bundle(0, 0, 3, ColliderKind::Obstacle),
        bundle(4, 3, 3, ColliderKind::Obstacle),
        bundle(-5, 0, 2, ColliderKind::Player),
        bundle(0, 9, 6, ColliderKind::Projectile),
        bundle(0, 0, 1, ColliderKind::Projectile),
    ]);
    collision_detection(&mut world);
    let n = world.len();
    for a in 0..n {
        assert!(!listed(&world, a, a as u64));
        for b in 0..n {
            if a != b {
                assert_eq!(listed(&world, a, b as u64), listed(&world, b, a as u64));
                let ea = &world.entities()[a];
                let eb = &world.entities()[b];
                let expected = overlap(
                    ea.transform.translation,
                    ea.collidor.radius(),
                    eb.transform.translation,
                    eb.collidor.radius(),
                );
                assert_eq!(listed(&world, a, b as u64), expected);
            }
        }
    }
    // two entities at the same place still do not list themselves
    assert!(listed(&world, 0, 4));
    assert!(listed(&world, 4, 0));
}

#[test]
fn detection_replaces_the_previous_list() {
    let mut world = world_of(vec![
        bundle(0, 0, 5, ColliderKind::Obstacle),
        bundle(8, 0, 5, ColliderKind::Projectile),
    ]);
    collision_detection(&mut world);
    assert_eq!(world.entities()[0].collidor.colliding_entities().len(), 1);
    collision_detection(&mut world);
    assert_eq!(world.entities()[0].collidor.colliding_entities().len(), 1);
    // remove the projectile; the obstacle's list is emptied by the next pass
    world.despawn(EntityId(1));
    world.flush();
    assert_eq!(world.entities()[0].collidor.colliding_entities().len(), 1);
    collision_detection(&mut world);
    assert!(world.entities()[0].collidor.colliding_entities().is_empty());
}

#[test]
fn detection_leaves_kinematics_alone() {
    let mut world = world_of(vec![
        bundle(0, 0, 5, ColliderKind::Obstacle),
        bundle(8, 0, 5, ColliderKind::Projectile),
    ]);
    let before: Vec<(Transform, Vec3, Vec3)> = world
        .entities()
        .iter()
        .map(|e| (e.transform, e.velocity, e.acceleration))
        .collect();
    collision_detection(&mut world);
    let after: Vec<(Transform, Vec3, Vec3)> = world
        .entities()
        .iter()
        .map(|e| (e.transform, e.velocity, e.acceleration))
        .collect();
    assert_eq!(before, after);
    assert!(world.pending().is_empty());
}

#[test]
fn detection_on_an_empty_world() {
    let mut world = world_of(vec![]);
    collision_detection(&mut world);
    assert_eq!(world.len(), 0);
}
