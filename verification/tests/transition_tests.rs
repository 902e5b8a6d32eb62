use target_range::error::FatalError;
use target_range::game::SceneStack;
use target_range::geom::Vec3;
use target_range::hit_and_dodge_scene::HitAndDodgeGameScene;
use target_range::message::{Message, MessageValue};
use target_range::physics::{BodyHandle, BodyRec, ColliderHandle, GamePhysics};
use target_range::render_objects::RenderObjects;
use rand::rngs::SmallRng;
use rand::SeedableRng;
use target_range::gunman::{Gunman, BULLET_LIFETIME_MS, GUNMAN_AIM_MS, GUNMAN_COOLDOWN_MAX_MS};
use target_range::scene::{
    FrameInput, GameDifficulty, GameState, PauseScene, Scene, SceneOp, PREPARE_DURATION_MS,
};
use target_range::systems::{spawn_gunman, update_gunmans};
use target_range::world::{EntityKind, EntityWorld};

fn idle_input() -> FrameInput {
    FrameInput {
        left_mouse_pressed: false,
        any_mouse_pressed: false,
        escape_pressed: false,
        confirm_pressed: false,
    }
}

#[test]
fn stale_physics_handles_are_fatal() {
    let mut physics = GamePhysics::new();
    assert_eq!(
        physics.remove_collider(ColliderHandle { index: 3 }).unwrap_err(),
        FatalError::BadColliderHandle
    );
    let body = physics.insert_body(BodyRec {
        position: Vec3 { x: 0, y: 0, z: 0 },
        linvel: Vec3 { x: 0, y: 0, z: 0 },
    });
    physics.remove_body(body).unwrap();
    assert_eq!(physics.remove_body(body).unwrap_err(), FatalError::BadBodyHandle);
    assert_eq!(
        physics
            .set_body_position(BodyHandle { index: 77 }, Vec3 { x: 0, y: 0, z: 0 })
            .unwrap_err(),
        FatalError::BadBodyHandle
    );
}

#[test]
fn resuming_from_pause_freezes_behind_a_fresh_countdown() {
    let mut pause = PauseScene::new(Some(GameDifficulty::Hard));
    let mut resume = idle_input();
    resume.confirm_pressed = true;
    let op = pause.update(&resume);
    let msg = match op {
        SceneOp::Pop(1, Some(msg)) => msg,
        _ => panic!("resume pops one scene with a message"),
    };
    let mut scene = HitAndDodgeGameScene::new(GameDifficulty::Easy);
    let mut queue = RenderObjects::new();
    scene.init(&Some(msg), &mut queue).unwrap();
    assert!(scene.freeze);
    assert!(matches!(scene.game_state, GameState::Prepare(_)));
    assert!(matches!(scene.difficulty, GameDifficulty::Hard));
}

#[test]
fn round_message_without_difficulty_is_fatal() {
    let mut scene = HitAndDodgeGameScene::new(GameDifficulty::Easy);
    let mut queue = RenderObjects::new();
    let msg = Message::new();
    assert_eq!(
        scene.init(&Some(msg), &mut queue),
        Err(FatalError::MessageKeyMissing)
    );
    let mut wrong = Message::new();
    wrong.insert("difficulty", MessageValue::F64(1.0f64.to_bits()));
    assert_eq!(
        scene.init(&Some(wrong), &mut queue),
        Err(FatalError::MessageTypeMismatch)
    );
    let mut out_of_band = Message::new();
    out_of_band.insert("difficulty", MessageValue::I64(9));
    assert_eq!(
        scene.init(&Some(out_of_band), &mut queue),
        Err(FatalError::MessageTypeMismatch)
    );
}

#[test]
fn round_flow_runs_preround_prepare_round_finishing() {
    let mut scene = HitAndDodgeGameScene::new(GameDifficulty::Medium);
    let mut click = idle_input();
    click.any_mouse_pressed = true;
    // Waiting for the first click.
    let (in_round, finished) = scene.advance_state(16, &idle_input());
    assert!(!in_round && !finished);
    assert!(matches!(scene.game_state, GameState::Preround));
    // The click starts the prepare countdown.
    scene.advance_state(16, &click);
    assert!(matches!(scene.game_state, GameState::Prepare(_)));
    // Running the countdown out starts the round.
    scene.advance_state(PREPARE_DURATION_MS, &idle_input());
    scene.advance_state(16, &idle_input());
    assert!(matches!(scene.game_state, GameState::Round));
    // Running the round clock out raises the finishing banner.
    scene.round_timer.update(1_000_000);
    scene.end_round_check();
    assert!(matches!(scene.game_state, GameState::Finishing(_)));
    // And the banner's end closes the round.
    let (_, finished) = scene.advance_state(1_000_000, &idle_input());
    let (_, finished2) = scene.advance_state(16, &idle_input());
    assert!(finished || finished2);
}

#[test]
fn bullets_expire_and_are_swept() {
    let mut world = EntityWorld::new();
    let mut physics = GamePhysics::new();
    let mut rng = SmallRng::seed_from_u64(42);
    let gunman = Gunman::new(&mut rng);
    spawn_gunman(&mut world, &mut physics, Vec3 { x: 0, y: 2000, z: 0 }, gunman);
    let player = Vec3 { x: 5000, y: 1500, z: 5000 };
    // Run the cycle far enough to certainly fire once.
    let bullets = update_gunmans(
        &mut world,
        &mut physics,
        GUNMAN_COOLDOWN_MAX_MS,
        &player,
        &mut rng,
    );
    let bullets2 = update_gunmans(&mut world, &mut physics, GUNMAN_AIM_MS, &player, &mut rng);
    let bid = bullets.first().or(bullets2.first()).copied().expect("a shot");
    assert!(matches!(world.get(bid).unwrap().kind, EntityKind::Bullet(_)));
    // Its lifetime runs out; the sweep in the scenes uses the same
    // deferred-removal machinery exercised here via a scene.
    let mut scene = HitAndDodgeGameScene::new(GameDifficulty::Easy);
    let shot = update_gunmans(
        &mut scene.world,
        &mut scene.physics,
        GUNMAN_COOLDOWN_MAX_MS,
        &player,
        &mut scene.rng,
    );
    let shot2 = update_gunmans(
        &mut scene.world,
        &mut scene.physics,
        GUNMAN_AIM_MS,
        &player,
        &mut scene.rng,
    );
    let sid = shot.first().or(shot2.first()).copied().expect("a shot");
    scene.sweep_dead(BULLET_LIFETIME_MS);
    assert!(!scene.world.contains(sid));
}

#[test]
fn replace_swaps_the_top_scene() {
    let mut stack = SceneStack::new(Scene::Pause(PauseScene::new(None)));
    let mut queue = RenderObjects::new();
    let events = stack
        .apply_scene_op(
            SceneOp::Replace(Box::new(Scene::Pause(PauseScene::new(Some(GameDifficulty::Easy)))), None),
            &mut queue,
        )
        .unwrap();
    assert_eq!(events.len(), 2);
    assert_eq!(stack.len(), 1);
    match stack.top_mut() {
        Scene::Pause(p) => assert!(p.difficulty.is_some()),
        _ => panic!("replace kept the wrong scene"),
    }
}
