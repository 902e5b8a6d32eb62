use target_range::classic_game_scene::{ClassicGameScene, TargetSpawnState};
use target_range::error::FatalError;
use target_range::game::{LifecycleEvent, SceneStack};
use target_range::hit_and_dodge_scene::HitAndDodgeGameScene;
use target_range::hit_and_dodge_score_scene::HitAndDodgeGameScoreDisplay;
use target_range::message::{Message, MessageValue};
use target_range::physics::ColliderHandle;
use target_range::render_objects::RenderObjects;
use target_range::scene::{FrameInput, GameDifficulty, MainMenuScene, PauseScene, Scene, SceneOp};
use target_range::world::EntityKind;

fn idle_input() -> FrameInput {
    FrameInput {
        left_mouse_pressed: false,
        any_mouse_pressed: false,
        escape_pressed: false,
        confirm_pressed: false,
    }
}

/// The handle of the first collider owned by an entity: in a fresh
/// classic scene, the primary target's.
fn first_owned_collider(scene: &ClassicGameScene) -> ColliderHandle {
    for (i, slot) in scene.physics.colliders.iter().enumerate() {
        if let Some(rec) = slot {
            if rec.owner.is_some() {
                return ColliderHandle { index: i as u32 };
            }
        }
    }
    panic!("no owned collider");
}

#[test]
fn classic_round_waits_for_the_start_countdown() {
    let mut scene = ClassicGameScene::new();
    let mut queue = RenderObjects::new();
    scene.init(&mut queue);
    assert!(!scene.game_running);
    // The countdown runs for three seconds before the round starts.
    scene.advance_frame(1000);
    assert!(!scene.game_running);
    scene.advance_frame(2000);
    assert!(!scene.game_running);
    // The countdown has run out; the next frame flips the round on.
    scene.advance_frame(16);
    assert!(scene.game_running);
}

#[test]
fn classic_fire_needs_trigger_and_cooldown() {
    let mut scene = ClassicGameScene::new();
    let mut queue = RenderObjects::new();
    scene.init(&mut queue);
    scene.advance_frame(3000);
    scene.advance_frame(16);
    assert!(scene.game_running);
    let mut fire_input = idle_input();
    fire_input.left_mouse_pressed = true;
    assert!(scene.decide_fire(&fire_input));
    // The cooldown now gates a second shot.
    assert!(!scene.decide_fire(&fire_input));
    scene.advance_frame(400);
    assert!(scene.decide_fire(&fire_input));
    // No trigger, no shot.
    assert!(!scene.decide_fire(&idle_input()));
}

#[test]
fn classic_miss_costs_the_penalty() {
    let mut scene = ClassicGameScene::new();
    // A shot that hit nothing.
    scene.resolve_shot(None);
    assert_eq!(scene.score.score, -100);
    assert_eq!(scene.score.miss, 1);
    assert_eq!(scene.score.hit, 0);
    // A shot that hit a stale handle is a miss, never a crash.
    scene.resolve_shot(Some(ColliderHandle { index: 9999 }));
    assert_eq!(scene.score.score, -200);
    assert_eq!(scene.score.miss, 2);
}

#[test]
fn classic_hit_scores_marks_and_respawns() {
    let mut scene = ClassicGameScene::new();
    let handle = first_owned_collider(&scene);
    let target_id = scene.physics.entity_of_collider(handle).unwrap();
    scene.resolve_shot(Some(handle));
    // An instant reaction earns the full nine hundred points.
    assert_eq!(scene.score.score, 900);
    assert_eq!(scene.score.hit, 1);
    assert_eq!(scene.score.miss, 0);
    assert!(matches!(scene.target_spawn_state, TargetSpawnState::Secondary));
    // The hit target is marked shot; a second hit on it is a miss.
    match &scene.world.get(target_id).unwrap().kind {
        EntityKind::Target(t) => assert!(t.shot),
        _ => panic!("not a target"),
    }
    scene.resolve_shot(Some(handle));
    assert_eq!(scene.score.miss, 1);
    assert_eq!(scene.score.hit, 1);
}

#[test]
fn shot_target_despawns_once_and_never_resolves_again() {
    let mut scene = ClassicGameScene::new();
    let handle = first_owned_collider(&scene);
    let target_id = scene.physics.entity_of_collider(handle).unwrap();
    scene.resolve_shot(Some(handle));
    // The next sweep tears the shot target down: bundle and collider
    // leave together.
    let missed = scene.sweep_targets(16);
    assert!(!missed, "a shot target does not charge the secondary miss");
    assert!(!scene.world.contains(target_id));
    assert!(scene.physics.get_collider(handle).is_none());
    // No later hit-scan resolves to the dead entity.
    assert_eq!(scene.physics.entity_of_collider(handle), None);
    // A second sweep finds nothing to remove again.
    let missed_again = scene.sweep_targets(16);
    assert!(!missed_again);
    assert!(!scene.world.contains(target_id));
}

#[test]
fn expired_secondary_target_charges_one_miss() {
    let mut scene = ClassicGameScene::new();
    let handle = first_owned_collider(&scene);
    // Shoot the primary target: the cadence moves to the secondary one.
    scene.resolve_shot(Some(handle));
    let score_after_hit = scene.score.score;
    scene.sweep_targets(16);
    // The secondary target lives one second; let it expire unshot.
    let missed = scene.sweep_targets(1000);
    assert!(missed);
    let r = scene.handle_secondary_miss();
    assert!(r.is_ok());
    assert_eq!(scene.score.score, score_after_hit - 100);
    assert_eq!(scene.score.miss, 1);
    assert!(matches!(scene.target_spawn_state, TargetSpawnState::Primary));
    // Charging it again with the cadence on the primary is fatal.
    assert_eq!(scene.handle_secondary_miss(), Err(FatalError::SpawnStateCorrupt));
}

#[test]
fn classic_score_message_carries_the_round_result() {
    let mut scene = ClassicGameScene::new();
    scene.resolve_shot(None);
    let input = idle_input();
    // The round clock stood at zero when the frame began.
    let op = scene.check_transition(0, &input);
    match op {
        SceneOp::Push(_, Some(msg)) => {
            assert!(matches!(msg.get("hit"), Some(MessageValue::I32(0))));
            assert!(matches!(msg.get("miss"), Some(MessageValue::I32(1))));
            assert!(matches!(msg.get("score"), Some(MessageValue::I32(-100))));
        }
        _ => panic!("expected the score push"),
    }
    // A running clock keeps the round going.
    assert!(matches!(scene.check_transition(55_000, &input), SceneOp::NoOp));
    // Escape wins, and pushes the pause overlay with no message.
    let mut escape = idle_input();
    escape.escape_pressed = true;
    match scene.check_transition(0, &escape) {
        SceneOp::Push(sc, None) => assert!(matches!(*sc, Scene::Pause(_))),
        _ => panic!("escape pushes the pause overlay"),
    }
}

#[test]
fn stack_pairs_every_init_with_a_deinit() {
    let mut stack = SceneStack::new(Scene::MainMenu(MainMenuScene::new()));
    let mut queue = RenderObjects::new();
    let events = stack
        .apply_scene_op(
            SceneOp::Push(
                Box::new(Scene::Pause(PauseScene::new(Some(GameDifficulty::Hard)))),
                None,
            ),
            &mut queue,
        )
        .unwrap();
    assert_eq!(events, vec![LifecycleEvent::Deinit, LifecycleEvent::Init]);
    assert_eq!(stack.len(), 2);
    // The pushed scene itself — as its setup left it — is the new top.
    match stack.top_mut() {
        Scene::Pause(p) => assert!(matches!(p.difficulty, Some(GameDifficulty::Hard))),
        _ => panic!("push put the wrong scene on top"),
    }
    let events = stack.apply_scene_op(SceneOp::Pop(1, None), &mut queue).unwrap();
    assert_eq!(events, vec![LifecycleEvent::Deinit, LifecycleEvent::Init]);
    assert_eq!(stack.len(), 1);
    // The pop uncovered the scene below, untouched by its no-op setup.
    assert!(matches!(stack.top_mut(), Scene::MainMenu(_)));
}

#[test]
fn stack_pop_too_deep_fails_fatally_never_clamps() {
    let mut stack = SceneStack::new(Scene::MainMenu(MainMenuScene::new()));
    let mut queue = RenderObjects::new();
    stack
        .apply_scene_op(
            SceneOp::Push(Box::new(Scene::Pause(PauseScene::new(None))), None),
            &mut queue,
        )
        .unwrap();
    assert_eq!(stack.len(), 2);
    // Popping everything (or more) must fail and leave the stack whole.
    let r = stack.apply_scene_op(SceneOp::Pop(2, None), &mut queue);
    assert_eq!(r.unwrap_err(), FatalError::PopOutOfRange);
    assert_eq!(stack.len(), 2);
    let r = stack.apply_scene_op(SceneOp::Pop(5, None), &mut queue);
    assert_eq!(r.unwrap_err(), FatalError::PopOutOfRange);
    assert_eq!(stack.len(), 2);
    let r = stack.apply_scene_op(SceneOp::Pop(0, None), &mut queue);
    assert_eq!(r.unwrap_err(), FatalError::PopOutOfRange);
    assert_eq!(stack.len(), 2);
}

#[test]
fn hit_and_dodge_shot_on_enemy_lands_without_points() {
    let mut scene = HitAndDodgeGameScene::new(GameDifficulty::Easy);
    let mut enemy_handle = None;
    for (i, slot) in scene.physics.colliders.iter().enumerate() {
        if let Some(rec) = slot {
            if rec.owner.is_some() {
                let h = ColliderHandle { index: i as u32 };
                let id = scene.physics.entity_of_collider(h).unwrap();
                if matches!(scene.world.get(id).unwrap().kind, EntityKind::Gunman(_)) {
                    enemy_handle = Some(h);
                }
            }
        }
    }
    let handle = enemy_handle.expect("a gunman collider");
    let id = scene.physics.entity_of_collider(handle).unwrap();
    scene.resolve_shot(Some(handle));
    assert_eq!(scene.score.score, 0);
    assert_eq!(scene.score.miss, 0);
    match &scene.world.get(id).unwrap().kind {
        EntityKind::Gunman(g) => assert_eq!(g.health, 2),
        _ => panic!("not a gunman"),
    }
    // Two more hits kill it; the sweep then removes it with its collider.
    scene.resolve_shot(Some(handle));
    scene.resolve_shot(Some(handle));
    scene.sweep_dead(16);
    assert!(!scene.world.contains(id));
    assert!(scene.physics.get_collider(handle).is_none());
    assert_eq!(scene.physics.entity_of_collider(handle), None);
}

#[test]
fn hit_and_dodge_wall_hit_is_a_miss() {
    let mut scene = HitAndDodgeGameScene::new(GameDifficulty::Easy);
    let mut wall_handle = None;
    for (i, slot) in scene.physics.colliders.iter().enumerate() {
        if let Some(rec) = slot {
            if let Some(owner) = rec.owner {
                let h = ColliderHandle { index: i as u32 };
                if matches!(scene.world.get(owner).unwrap().kind, EntityKind::Wall) {
                    wall_handle = Some(h);
                }
            }
        }
    }
    // A hit on an entity with no hittable component always scores as a
    // miss: the score drops and the miss counter rises.
    scene.resolve_shot(wall_handle);
    assert_eq!(scene.score.score, -100);
    assert_eq!(scene.score.miss, 1);
    // So does a shot that hit nothing at all.
    scene.resolve_shot(None);
    assert_eq!(scene.score.score, -200);
    assert_eq!(scene.score.miss, 2);
}

#[test]
fn score_display_reads_back_what_the_round_wrote() {
    let mut scene = HitAndDodgeGameScene::new(GameDifficulty::Medium);
    scene.resolve_shot(None);
    let mut msg = Message::new();
    scene.score.write_message(&mut msg);
    // The database path adds these two on the original flow.
    msg.insert("accuracy", MessageValue::F64(0f64.to_bits()));
    msg.insert("created_at", MessageValue::Timestamp(1_600_000_000));
    let mut display = HitAndDodgeGameScoreDisplay::new();
    display.read_message(&Some(msg)).unwrap();
    assert_eq!(display.hit, 0);
    assert_eq!(display.miss, 1);
    assert_eq!(display.score, -100);
    assert_eq!(display.created_at, 1_600_000_000);
    assert_eq!(display.accuracy, 0);
}

#[test]
fn score_display_missing_key_is_fatal() {
    let mut msg = Message::new();
    msg.insert("hit", MessageValue::I64(3));
    let mut display = HitAndDodgeGameScoreDisplay::new();
    assert_eq!(
        display.read_message(&Some(msg)),
        Err(FatalError::MessageKeyMissing)
    );
}

#[test]
fn score_display_wrong_tag_is_fatal() {
    let mut scene = HitAndDodgeGameScene::new(GameDifficulty::Easy);
    let mut msg = Message::new();
    scene.score.write_message(&mut msg);
    msg.insert("accuracy", MessageValue::F64(0f64.to_bits()));
    msg.insert("created_at", MessageValue::I64(5));
    let mut display = HitAndDodgeGameScoreDisplay::new();
    assert_eq!(
        display.read_message(&Some(msg)),
        Err(FatalError::MessageTypeMismatch)
    );
    scene.resolve_shot(None);
}

#[test]
fn new_target_respawns_inside_the_spawn_band() {
    let mut scene = ClassicGameScene::new();
    let handle = first_owned_collider(&scene);
    scene.resolve_shot(Some(handle));
    // The respawned secondary target sits inside its random band.
    let mut found = false;
    for slot in scene.physics.colliders.iter() {
        if let Some(rec) = slot {
            if let Some(owner) = rec.owner {
                if let EntityKind::Target(t) = &scene.world.get(owner).unwrap().kind {
                    if !t.shot {
                        found = true;
                        assert!((-5000..5000).contains(&rec.position.x));
                        assert!((500..5000).contains(&rec.position.y));
                        assert!((-19000..-13000).contains(&rec.position.z));
                    }
                }
            }
        }
    }
    assert!(found, "a fresh secondary target exists");
}
