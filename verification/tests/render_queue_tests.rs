use target_range::frustum::{Frustum, ObjectBound};
use target_range::geom::{Vec3, FP_ONE};
use target_range::render_objects::{
    MaterialType, RenderObjects, RenderQueueData, ShapeType, VISIBLE_CAPACITY,
};

fn forward_frustum() -> Frustum {
    // Camera at the origin looking down negative z, one-kilometre range.
    Frustum::new(
        Vec3::new(0, 0, 0),
        Vec3::new(0, 0, -FP_ONE),
        1_000_000,
    )
}

fn record_at(z: i32) -> RenderQueueData {
    let mut rec = RenderQueueData::new_none();
    rec.position = Vec3::new(0, 0, z);
    rec
}

#[test]
fn unbounded_records_are_never_culled() {
    let f = forward_frustum();
    assert!(f.is_on_frustum(&Vec3::new(0, 0, 500_000), &ObjectBound::NoBound));
}

#[test]
fn sphere_behind_the_camera_is_culled() {
    let f = forward_frustum();
    // Ten metres behind the camera, half-metre radius: out of the cone.
    assert!(!f.is_on_frustum(&Vec3::new(0, 0, 10_000), &ObjectBound::Sphere(500)));
    // Ten metres in front: visible.
    assert!(f.is_on_frustum(&Vec3::new(0, 0, -10_000), &ObjectBound::Sphere(500)));
    // Beyond the far distance: culled.
    assert!(!f.is_on_frustum(&Vec3::new(0, 0, -2_000_000), &ObjectBound::Sphere(500)));
}

#[test]
fn visibility_pass_truncates_at_capacity() {
    let f = forward_frustum();
    let mut q = RenderObjects::new();
    for i in 0..100 {
        let r = q.next();
        r.0 = record_at(-1_000 - i);
        r.1 = ObjectBound::Sphere(500);
    }
    let (objects, len) = q.get_objects_and_active_len(&f);
    assert_eq!(len, VISIBLE_CAPACITY);
    assert_eq!(objects.len(), VISIBLE_CAPACITY);
    // Dropped deterministically by iteration order: the first seventy stay.
    for (i, obj) in objects.iter().enumerate() {
        assert_eq!(obj.position.z, -1_000 - i as i32);
    }
}

#[test]
fn visibility_pass_returns_exact_count_under_capacity() {
    let f = forward_frustum();
    let mut q = RenderObjects::new();
    for i in 0..5 {
        let r = q.next();
        r.0 = record_at(-2_000 - i);
        r.1 = ObjectBound::Sphere(500);
    }
    // One record behind the camera does not count.
    let r = q.next();
    r.0 = record_at(50_000);
    r.1 = ObjectBound::Sphere(500);
    let (objects, len) = q.get_objects_and_active_len(&f);
    assert_eq!(len, 5);
    for obj in objects.iter().skip(5) {
        assert!(matches!(obj.shape_type_material_ids.shape, ShapeType::NoShape));
    }
}

#[test]
fn visibility_pass_walks_static_before_dynamic_and_clears_dynamic() {
    let f = forward_frustum();
    let mut q = RenderObjects::new();
    let r = q.next();
    r.0 = record_at(-9_000);
    r.1 = ObjectBound::Sphere(500);
    let rs = q.next_static();
    rs.0 = record_at(-3_000);
    rs.1 = ObjectBound::Sphere(500);
    let (objects, len) = q.get_objects_and_active_len(&f);
    assert_eq!(len, 2);
    assert_eq!(objects[0].position.z, -3_000);
    assert_eq!(objects[1].position.z, -9_000);
    // The dynamic list is cleared, the static one kept.
    let (objects2, len2) = q.get_objects_and_active_len(&f);
    assert_eq!(len2, 1);
    assert_eq!(objects2[0].position.z, -3_000);
}

#[test]
fn clear_drops_both_lists() {
    let f = forward_frustum();
    let mut q = RenderObjects::new();
    let r = q.next_static();
    r.0 = record_at(-3_000);
    r.1 = ObjectBound::Sphere(500);
    q.clear();
    let (_, len) = q.get_objects_and_active_len(&f);
    assert_eq!(len, 0);
}

#[test]
fn shape_and_material_ids_match_the_gpu_contract() {
    assert_eq!(ShapeType::NoShape.id(), 0);
    assert_eq!(ShapeType::Cuboid.id(), 1);
    assert_eq!(ShapeType::Sphere.id(), 2);
    assert_eq!(ShapeType::Cylinder.id(), 3);
    assert_eq!(ShapeType::Swordman.id(), 4);
    assert_eq!(ShapeType::Gunman.id(), 5);
    assert_eq!(MaterialType::Green.id(), 0);
    assert_eq!(MaterialType::Checker.id(), 4);
    assert_eq!(MaterialType::Red.id(), 5);
    assert_eq!(MaterialType::Target.id(), 11);
    assert_eq!(MaterialType::StoneWall.id(), 13);
}

#[test]
fn new_none_record_is_inert() {
    let rec = RenderQueueData::new_none();
    assert_eq!(rec.position, Vec3::new(0, 0, 0));
    assert_eq!(rec.scale, Vec3::new(0, 0, 0));
    assert!(matches!(rec.shape_type_material_ids.shape, ShapeType::NoShape));
    assert!(matches!(rec.shape_type_material_ids.material_0, MaterialType::Red));
}
