use target_range::geom::Vec3;
use target_range::physics::{ColliderRec, ColliderShape, GamePhysics};
use target_range::systems::{despawn_entity, spawn_target, spawn_wall};
use target_range::target::Target;
use target_range::world::{ComponentBundle, EntityKind, EntityWorld};

#[test]
fn spawn_then_get_then_despawn() {
    let mut world = EntityWorld::new();
    let id = world.spawn(ComponentBundle {
        kind: EntityKind::Player,
        collider: None,
        body: None,
    });
    assert!(world.contains(id));
    assert!(matches!(world.get(id).unwrap().kind, EntityKind::Player));
    let bundle = world.despawn(id).unwrap();
    assert!(matches!(bundle.kind, EntityKind::Player));
    assert!(!world.contains(id));
    assert!(world.get(id).is_none());
}

#[test]
fn despawning_a_dead_id_is_fatal() {
    let mut world = EntityWorld::new();
    let id = world.spawn(ComponentBundle {
        kind: EntityKind::Wall,
        collider: None,
        body: None,
    });
    world.despawn(id).unwrap();
    assert!(world.despawn(id).is_err());
}

#[test]
fn a_reused_slot_never_honours_the_old_id() {
    let mut world = EntityWorld::new();
    let first = world.spawn(ComponentBundle {
        kind: EntityKind::Wall,
        collider: None,
        body: None,
    });
    world.despawn(first).unwrap();
    let second = world.spawn(ComponentBundle {
        kind: EntityKind::Player,
        collider: None,
        body: None,
    });
    // The slot is reused under a new generation.
    assert_eq!(second.index, first.index);
    assert_ne!(second.generation, first.generation);
    assert!(!world.contains(first));
    assert!(world.get(first).is_none());
    assert!(world.contains(second));
}

#[test]
fn despawn_removes_entity_and_collider_in_the_same_tick() {
    let mut world = EntityWorld::new();
    let mut physics = GamePhysics::new();
    let (id, handle) = spawn_target(
        &mut world,
        &mut physics,
        Vec3 { x: 0, y: 3000, z: -10_000 },
        Target::new(),
    );
    assert_eq!(physics.entity_of_collider(handle), Some(id));
    let bundle = despawn_entity(&mut world, &mut physics, id).unwrap();
    assert_eq!(bundle.collider, Some(handle));
    // Both sides are gone together.
    assert!(!world.contains(id));
    assert!(physics.get_collider(handle).is_none());
    // A later hit-scan on the stale handle resolves to nothing.
    assert_eq!(physics.entity_of_collider(handle), None);
}

#[test]
fn world_geometry_resolves_to_no_entity() {
    let mut world = EntityWorld::new();
    let mut physics = GamePhysics::new();
    let ground = physics.insert_collider(ColliderRec {
        owner: None,
        shape: ColliderShape::Cuboid(Vec3 { x: 999, y: 100, z: 999 }),
        position: Vec3 { x: 0, y: 0, z: 0 },
        parent: None,
    });
    assert_eq!(physics.entity_of_collider(ground), None);
    let (_wid, wall_handle) = spawn_wall(
        &mut world,
        &mut physics,
        Vec3 { x: 0, y: 1400, z: -9500 },
        Vec3 { x: 10_000, y: 398, z: 500 },
    );
    // A wall is an entity, but not a hittable one.
    assert!(physics.entity_of_collider(wall_handle).is_some());
}
