use rand::rngs::SmallRng;
use rand::SeedableRng;

use target_range::geom::Vec3;
use target_range::gunman::{Gunman, GunmanState, GUNMAN_AIM_MS, GUNMAN_COOLDOWN_MAX_MS};
use target_range::physics::GamePhysics;
use target_range::render_objects::{RenderObjects, ShapeType};
use target_range::swordman::{Swordman, SWORDMAN_MAX_HEALTH, SWORDMAN_SPEED};
use target_range::systems::{
    enqueue_swordman, spawn_gunman, spawn_swordman, update_gunmans, update_swordmans,
};
use target_range::world::{EntityId, EntityKind, EntityWorld};

#[test]
fn swordman_walks_toward_the_player_without_overshooting() {
    let mut sw = Swordman::new();
    let mut pos = Vec3 { x: 0, y: 2500, z: 0 };
    let player = Vec3 { x: 10_000, y: 1500, z: 0 };
    // One second of walking covers exactly the walking speed.
    sw.update(1000, &mut pos, &player);
    assert_eq!(pos.x, SWORDMAN_SPEED);
    assert_eq!(pos.y, 2500, "the swordman does not climb");
    assert_eq!(pos.z, 0);
    // It faces its travel.
    assert!(sw.get_rotation().x > 0);
    assert_eq!(sw.get_rotation().z, 0);
    // Standing next to the player it stops instead of overshooting.
    let mut near = Vec3 { x: 9_900, y: 1500, z: 0 };
    sw.update(1000, &mut near, &player);
    assert_eq!(near.x, 10_000);
}

#[test]
fn swordman_dies_after_its_health_runs_out() {
    let mut sw = Swordman::new();
    for _ in 0..SWORDMAN_MAX_HEALTH {
        assert!(!sw.is_dead());
        sw.hit();
    }
    assert!(sw.is_dead());
    // A hit on a dead swordman never underflows.
    sw.hit();
    assert!(sw.is_dead());
}

#[test]
fn update_swordmans_moves_every_swordman_body() {
    let mut world = EntityWorld::new();
    let mut physics = GamePhysics::new();
    let (id, _ch) = spawn_swordman(
        &mut world,
        &mut physics,
        Vec3 { x: -2000, y: 2500, z: -2000 },
        Swordman::new(),
    );
    let player = Vec3 { x: 8_000, y: 1500, z: -2000 };
    update_swordmans(&mut world, &mut physics, 1000, &player);
    let body = world.get(id).unwrap().body.unwrap();
    let rec = physics.get_body(body).unwrap();
    assert_eq!(rec.position.x, -2000 + SWORDMAN_SPEED);
    assert_eq!(rec.position.z, -2000);
}

#[test]
fn gunman_cycle_rests_aims_and_fires_one_bullet() {
    let mut world = EntityWorld::new();
    let mut physics = GamePhysics::new();
    let mut rng = SmallRng::seed_from_u64(7);
    let gunman = Gunman::new(&mut rng);
    let cooldown = match gunman.state {
        GunmanState::Idle(t) => t.remaining_ms,
        GunmanState::Aim(_) => panic!("a fresh gunman rests"),
    };
    assert!(cooldown < GUNMAN_COOLDOWN_MAX_MS);
    let (gid, _gch) = spawn_gunman(
        &mut world,
        &mut physics,
        Vec3 { x: 2000, y: 2500, z: -2000 },
        gunman,
    );
    let player = Vec3 { x: 0, y: 1500, z: 0 };
    // Resting out the whole cooldown starts the aim, without a shot.
    let bullets = update_gunmans(&mut world, &mut physics, cooldown, &player, &mut rng);
    assert!(bullets.is_empty());
    // Aiming out the aim duration fires exactly one bullet at the player.
    let bullets = update_gunmans(&mut world, &mut physics, GUNMAN_AIM_MS, &player, &mut rng);
    assert_eq!(bullets.len(), 1);
    let bullet_id: EntityId = bullets[0];
    match &world.get(bullet_id).unwrap().kind {
        EntityKind::Bullet(b) => {
            assert_eq!(b.owner, gid);
            // Aimed at where the player stood.
            assert!(b.velocity.x < 0 && b.velocity.y < 0 && b.velocity.z > 0);
        }
        _ => panic!("not a bullet"),
    }
}

#[test]
fn enqueue_swordman_pushes_one_record_per_swordman() {
    let mut world = EntityWorld::new();
    let mut physics = GamePhysics::new();
    spawn_swordman(&mut world, &mut physics, Vec3 { x: 0, y: 0, z: -5000 }, Swordman::new());
    spawn_swordman(&mut world, &mut physics, Vec3 { x: 1000, y: 0, z: -5000 }, Swordman::new());
    let mut queue = RenderObjects::new();
    enqueue_swordman(&mut world, &mut physics, &mut queue);
    assert_eq!(queue.render_objects.len(), 2);
    for (rec, _bound) in queue.render_objects.iter() {
        assert!(matches!(rec.shape_type_material_ids.shape, ShapeType::Swordman));
    }
}
