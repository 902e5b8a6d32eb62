//! The hit-and-dodge mode: a round against a gunman and a swordman in a
//! walled arena, with a pre-round countdown and a finishing banner.
//!
//! A frame runs in phases, like the classic mode: the round flow advances,
//! the enemies act (through the entity systems), the removal sweep tears
//! down dead enemies and spent bullets, the rigid-body engine steps, and
//! the frame closes with shot resolution and the transition check.

use vstd::prelude::*;

use rand::rngs::SmallRng;

use crate::error::FatalError;
use crate::frustum::ObjectBound;
use crate::geom::{Vec3, Vec4};
use crate::gunman::{Bullet, Gunman};
use crate::message::{Message, MessageValue};
use crate::physics::{BodyHandle, BodyRec, ColliderHandle, ColliderRec, ColliderShape, GamePhysics};
use crate::render_objects::{
    MaterialType, RenderObjects, RenderQueueData, ShapeMaterials, ShapeType,
};
use crate::rng::rng_from_entropy;
use crate::scene::{
    FrameInput, GameDifficulty, GameState, MaybeMessage, Scene, SceneOp, PauseScene,
    FINISHING_DURATION_MS, PREPARE_DURATION_MS,
};
use crate::geom::FP_ONE;
use crate::gunman::GUNMAN_MAX_HEALTH;
use crate::swordman::{Swordman, SWORDMAN_MAX_HEALTH};
use crate::systems::{
    backref_ok, bullet_records, coupled, despawn_entity, enqueue_bullet, enqueue_gunman,
    enqueue_swordman, enqueue_target, enqueue_wall, gunman_records, spawn_gunman, spawn_swordman,
    spawn_wall, swordman_records, target_records, wall_records,
};
use crate::timer::{Stopwatch, Timer};
use crate::world::{ComponentBundle, EntityId, EntityKind, EntityWorld};
use crate::hit_and_dodge_score_scene::{HitAndDodgeGameScoreDisplay, HitAndDodgeScoreScene};

verus! {

/// How long one round lasts, milliseconds.
pub const ROUND_DURATION_MS: u32 = 100000;

/// The pause the weapon needs between shots, milliseconds.
pub const SHOOT_COOLDOWN_MS: u32 = 400;

/// What a miss costs.
pub const MISS_PENALTY: i32 = 100;

/// The running score of a round.
pub struct Score {
    pub hit: u16,
    pub miss: u16,
    pub score: i32,
    /// Total reaction time over all hits, milliseconds.
    pub total_shoot_time: u32,
}

impl Score {
    pub fn new() -> (r: Score)
        ensures
            r.hit == 0,
            r.miss == 0,
            r.score == 0,
            r.total_shoot_time == 0,
    {
        Score { hit: 0, miss: 0, score: 0, total_shoot_time: 0 }
    }

    /// Write the round's result into a transition message, all values as
    /// 64-bit integers, the average reaction time in milliseconds.
    pub fn write_message(&self, message: &mut Message)
        requires
            old(message).wf(),
        ensures
            final(message).wf(),
            final(message).spec_get("hit"@) == Some(MessageValue::I64(self.hit as i64)),
            final(message).spec_get("miss"@) == Some(MessageValue::I64(self.miss as i64)),
            final(message).spec_get("score"@) == Some(MessageValue::I64(self.score as i64)),
            final(message).spec_get("avg_hit_time"@) == Some(
                MessageValue::I64(
                    (self.total_shoot_time as int / (if self.hit == 0 {
                        1int
                    } else {
                        self.hit as int
                    })) as i64,
                ),
            ),
            forall|k: Seq<char>|
                k != "hit"@ && k != "miss"@ && k != "score"@ && k != "avg_hit_time"@
                    ==> final(message).spec_get(k) == old(message).spec_get(k),
    {
        proof {
            reveal_strlit("hit");
            reveal_strlit("miss");
            reveal_strlit("score");
            reveal_strlit("avg_hit_time");
            assert("hit"@.len() == 3);
            assert("miss"@.len() == 4);
            assert("score"@.len() == 5);
            assert("avg_hit_time"@.len() == 12);
        }
        let divisor: u32 = if self.hit == 0 {
            1
        } else {
            self.hit as u32
        };
        let avg: u32 = self.total_shoot_time / divisor;
        message.insert("hit", MessageValue::I64(self.hit as i64));
        message.insert("miss", MessageValue::I64(self.miss as i64));
        message.insert("score", MessageValue::I64(self.score as i64));
        message.insert("avg_hit_time", MessageValue::I64(avg as i64));
    }
}

/// Is a component bundle's kind dead or spent after a tick of
/// `delta_ms`: a health-less enemy, or a bullet whose lifetime runs out?
pub open spec fn dead_kind(kind: EntityKind, delta_ms: u32) -> bool {
    match kind {
        EntityKind::Swordman(s) => s.health == 0,
        EntityKind::Gunman(g) => g.health == 0,
        EntityKind::Bullet(b) => b.lifetime.spec_updated(delta_ms).remaining_ms == 0,
        _ => false,
    }
}

/// The kind as one sweep tick leaves it: bullets age, everything else is
/// untouched.
pub open spec fn advanced_kind(kind: EntityKind, delta_ms: u32) -> EntityKind {
    match kind {
        EntityKind::Bullet(b) => EntityKind::Bullet(
            Bullet { velocity: b.velocity, owner: b.owner, lifetime: b.lifetime.spec_updated(delta_ms) },
        ),
        other => other,
    }
}

/// Is slot `i` occupied?
pub open spec fn lv_at(w: EntityWorld, i: int) -> bool {
    w.slots@[i] is Some
}

/// The id of the live tenant of slot `i`.
pub open spec fn hd_slot_id(w: EntityWorld, i: int) -> EntityId {
    EntityId { index: i as u32, generation: w.generations@[i] }
}

/// The ids of the dead or spent entities among the first `n` slots, in
/// slot order: the removal list the sweep collects.
pub open spec fn dead_ids(w: EntityWorld, delta_ms: u32, n: int) -> Seq<EntityId>
    decreases n,
{
    if n <= 0 {
        Seq::empty()
    } else {
        let prev = dead_ids(w, delta_ms, n - 1);
        if lv_at(w, n - 1) && dead_kind(w.slots@[n - 1].unwrap().kind, delta_ms) {
            prev.push(hd_slot_id(w, n - 1))
        } else {
            prev
        }
    }
}

/// Every collected id names the dead tenant of its own slot, and the list
/// is ordered by slot.
proof fn lemma_dead_ids_sound(w: EntityWorld, delta_ms: u32, n: int)
    requires
        w.wf(),
        0 <= n <= w.slots@.len(),
    ensures
        forall|k: int|
            0 <= k < dead_ids(w, delta_ms, n).len() ==> {
                let id = #[trigger] dead_ids(w, delta_ms, n)[k];
                &&& (id.index as int) < n
                &&& lv_at(w, id.index as int)
                &&& dead_kind(w.slots@[id.index as int].unwrap().kind, delta_ms)
                &&& id == hd_slot_id(w, id.index as int)
            },
        forall|k1: int, k2: int|
            0 <= k1 < k2 < dead_ids(w, delta_ms, n).len() ==> (#[trigger] dead_ids(
                w,
                delta_ms,
                n,
            )[k1]).index < (#[trigger] dead_ids(w, delta_ms, n)[k2]).index,
    decreases n,
{
    if n > 0 {
        lemma_dead_ids_sound(w, delta_ms, n - 1);
        let cur = dead_ids(w, delta_ms, n);
        let prev = dead_ids(w, delta_ms, n - 1);
        if lv_at(w, n - 1) && dead_kind(w.slots@[n - 1].unwrap().kind, delta_ms) {
            assert(cur == prev.push(hd_slot_id(w, n - 1)));
            assert((hd_slot_id(w, n - 1).index as int) == n - 1);
            assert forall|k: int| 0 <= k < cur.len() implies {
                let id = #[trigger] cur[k];
                &&& (id.index as int) < n
                &&& lv_at(w, id.index as int)
                &&& dead_kind(w.slots@[id.index as int].unwrap().kind, delta_ms)
                &&& id == hd_slot_id(w, id.index as int)
            } by {
                if k < prev.len() {
                    assert(cur[k] == prev[k]);
                } else {
                    assert(cur[k] == hd_slot_id(w, n - 1));
                }
            }
            assert forall|k1: int, k2: int| 0 <= k1 < k2 < cur.len() implies (
            #[trigger] cur[k1]).index < (#[trigger] cur[k2]).index by {
                if k2 < prev.len() {
                    assert(cur[k1] == prev[k1] && cur[k2] == prev[k2]);
                } else {
                    assert(cur[k2] == hd_slot_id(w, n - 1));
                    assert(cur[k1] == prev[k1]);
                    assert((prev[k1].index as int) < n - 1);
                }
            }
        } else {
            assert(cur == prev);
        }
    }
}

/// Every dead tenant's id is collected.
proof fn lemma_dead_ids_complete(w: EntityWorld, delta_ms: u32, n: int, j: int)
    requires
        w.wf(),
        0 <= j < n <= w.slots@.len(),
        lv_at(w, j),
        dead_kind(w.slots@[j].unwrap().kind, delta_ms),
    ensures
        exists|k: int|
            0 <= k < dead_ids(w, delta_ms, n).len() && #[trigger] dead_ids(w, delta_ms, n)[k]
                == hd_slot_id(w, j),
    decreases n,
{
    if j == n - 1 {
        assert(dead_ids(w, delta_ms, n)[dead_ids(w, delta_ms, n).len() - 1] == hd_slot_id(w, j));
    } else {
        lemma_dead_ids_complete(w, delta_ms, n - 1, j);
        let k = choose|k: int|
            0 <= k < dead_ids(w, delta_ms, n - 1).len() && #[trigger] dead_ids(w, delta_ms, n - 1)[k]
                == hd_slot_id(w, j);
        assert(dead_ids(w, delta_ms, n)[k] == hd_slot_id(w, j));
    }
}

/// The hit-and-dodge mode's whole state.
pub struct HitAndDodgeGameScene {
    pub world: EntityWorld,
    pub physics: GamePhysics,
    pub player_rigid_body_handle: BodyHandle,
    pub delta_shoot_time: Stopwatch,
    pub shoot_timer: Timer,
    pub score: Score,
    pub rng: SmallRng,
    pub entity_to_remove: Vec<EntityId>,
    pub round_timer: Timer,
    pub freeze: bool,
    pub game_state: GameState,
    pub difficulty: GameDifficulty,
}

/// The arena floor: static world geometry owned by no entity.
pub open spec fn spec_floor_collider() -> ColliderRec {
    ColliderRec {
        owner: None,
        shape: ColliderShape::Cuboid(Vec3 { x: 10000i32, y: 500i32, z: 10000i32 }),
        position: (Vec3 { x: 0i32, y: -500i32, z: 0i32 }),
        parent: None,
    }
}

/// One boundary wall's collider, owned by its wall entity.
pub open spec fn spec_wall_collider(id: EntityId, position: Vec3) -> ColliderRec {
    ColliderRec {
        owner: Some(id),
        shape: ColliderShape::Cuboid(Vec3 { x: 10000i32, y: 398i32, z: 500i32 }),
        position,
        parent: None,
    }
}

/// The floor slab the scene's setup puts into the static list.
pub open spec fn spec_floor_record() -> (RenderQueueData, ObjectBound) {
    (
        RenderQueueData {
            position: (Vec3 { x: 0i32, y: -500i32, z: 0i32 }),
            shape_data1: (Vec4 { x: 10000i32, y: 500i32, z: 10000i32, w: 0i32 }),
            shape_type_material_ids: (ShapeMaterials {
                shape: ShapeType::Cuboid,
                material_0: MaterialType::CobblestonePaving,
                material_1: MaterialType::Red,
                material_2: MaterialType::Red,
            }),
            ..RenderQueueData::spec_new_none()
        },
        ObjectBound::Sphere(21000),
    )
}

/// Why `init` rejects a transition message, if it does: the difficulty
/// key must be present, a 64-bit integer, and a known index.
pub open spec fn spec_rejects(message: MaybeMessage) -> Option<FatalError> {
    match message {
        None => None,
        Some(m) => if m.spec_get("difficulty"@) is None {
            Some(FatalError::MessageKeyMissing)
        } else if !(m.spec_get("difficulty"@).unwrap() is I64 && 0 <= m.spec_get(
            "difficulty"@,
        ).unwrap()->I64_0 <= 2) {
            Some(FatalError::MessageTypeMismatch)
        } else {
            None
        },
    }
}

/// The difficulty a wire index names (meaningful for indexes a message
/// that passed `spec_rejects` can carry).
pub open spec fn spec_difficulty_of(index: i64) -> GameDifficulty {
    if index == 0 {
        GameDifficulty::Easy
    } else if index == 1 {
        GameDifficulty::Medium
    } else {
        GameDifficulty::Hard
    }
}

impl HitAndDodgeGameScene {
    /// The scene's stores agree on their cross-references.
    pub open spec fn wf(self) -> bool {
        coupled(self.world, self.physics)
    }

    /// The scene as a non-rejected `init` leaves it: a message from the
    /// pause overlay freezes the round behind a fresh prepare countdown,
    /// and any message fixes the difficulty; no message changes nothing.
    pub open spec fn spec_inited(self, message: MaybeMessage) -> Self {
        match message {
            None => self,
            Some(m) => {
                let frozen = if m.spec_contains("from_pause"@) {
                    HitAndDodgeGameScene {
                        freeze: true,
                        game_state: GameState::Prepare(
                            Timer { remaining_ms: PREPARE_DURATION_MS },
                        ),
                        ..self
                    }
                } else {
                    self
                };
                HitAndDodgeGameScene {
                    difficulty: spec_difficulty_of(m.spec_get("difficulty"@).unwrap()->I64_0),
                    ..frozen
                }
            },
        }
    }

    /// Build the arena: ground, player, one gunman, one swordman and the
    /// two boundary walls.
    pub fn new(difficulty: GameDifficulty) -> (s: HitAndDodgeGameScene)
        ensures
            s.wf(),
            s.round_timer.remaining_ms == ROUND_DURATION_MS,
            s.shoot_timer.remaining_ms == 0,
            s.delta_shoot_time.elapsed_ms == 0,
            s.score.hit == 0 && s.score.miss == 0 && s.score.score == 0
                && s.score.total_shoot_time == 0,
            !s.freeze,
            s.game_state is Preround,
            s.difficulty == difficulty,
            s.entity_to_remove@.len() == 0,
            forall|id: EntityId|
                #[trigger] s.world.spec_live(id) ==> s.world.spec_get(id).unwrap().kind is Gunman
                    || s.world.spec_get(id).unwrap().kind is Swordman || s.world.spec_get(
                    id,
                ).unwrap().kind is Wall,
            exists|id: EntityId|
                {
                    let b = s.world.spec_get(id).unwrap();
                    &&& #[trigger] s.world.spec_live(id)
                    &&& b.kind is Gunman
                    &&& b.kind->Gunman_0.health == GUNMAN_MAX_HEALTH
                    &&& b.kind->Gunman_0.state is Idle
                    &&& b.body is Some
                    &&& s.physics.spec_body(b.body.unwrap()) == Some(
                        BodyRec {
                            position: (Vec3 { x: 2000i32, y: 2500i32, z: -2000i32 }),
                            linvel: (Vec3 { x: 0i32, y: 0i32, z: 0i32 }),
                        },
                    )
                },
            exists|id: EntityId|
                {
                    let b = s.world.spec_get(id).unwrap();
                    &&& #[trigger] s.world.spec_live(id)
                    &&& b.kind == EntityKind::Swordman(
                        Swordman {
                            health: SWORDMAN_MAX_HEALTH,
                            hurt: (Timer { remaining_ms: 0u32 }),
                            facing: (Vec3 { x: 0i32, y: 0i32, z: FP_ONE }),
                        },
                    )
                    &&& b.body is Some
                    &&& s.physics.spec_body(b.body.unwrap()) == Some(
                        BodyRec {
                            position: (Vec3 { x: -2000i32, y: 2500i32, z: -2000i32 }),
                            linvel: (Vec3 { x: 0i32, y: 0i32, z: 0i32 }),
                        },
                    )
                },
            forall|id1: EntityId, id2: EntityId|
                #[trigger] s.world.spec_live(id1) && #[trigger] s.world.spec_live(id2) && id1
                    != id2 ==> !(s.world.spec_get(id1).unwrap().kind is Gunman && s.world.spec_get(
                    id2,
                ).unwrap().kind is Gunman) && !(s.world.spec_get(id1).unwrap().kind is Swordman
                    && s.world.spec_get(id2).unwrap().kind is Swordman),
            exists|w1: EntityId, w2: EntityId|
                {
                    &&& w1 != w2
                    &&& #[trigger] s.world.spec_live(w1)
                    &&& #[trigger] s.world.spec_live(w2)
                    &&& s.world.spec_get(w1).unwrap().kind is Wall
                    &&& s.world.spec_get(w2).unwrap().kind is Wall
                    &&& s.physics.spec_collider(s.world.spec_get(w1).unwrap().collider.unwrap())
                        == Some(spec_wall_collider(w1, Vec3 { x: 0i32, y: 1400i32, z: -9500i32 }))
                    &&& s.physics.spec_collider(s.world.spec_get(w2).unwrap().collider.unwrap())
                        == Some(spec_wall_collider(w2, Vec3 { x: 0i32, y: 1400i32, z: 9500i32 }))
                    &&& forall|o: EntityId|
                        #[trigger] s.world.spec_live(o) && s.world.spec_get(o).unwrap().kind
                            is Wall ==> o == w1 || o == w2
                },
            s.physics.colliders@.len() == 6,
            s.physics.bodies@.len() == 3,
            s.physics.spec_body(s.player_rigid_body_handle) == Some(
                BodyRec {
                    position: (Vec3 { x: 0i32, y: 1500i32, z: 0i32 }),
                    linvel: (Vec3 { x: 0i32, y: 0i32, z: 0i32 }),
                },
            ),
            exists|hg: ColliderHandle| #[trigger] s.physics.spec_collider(hg) == Some(
                spec_floor_collider(),
            ),
    {
        let mut world = EntityWorld::new();
        let mut physics = GamePhysics::new();
        // Ground: static world geometry, owned by no entity.
        let ground = physics.insert_collider(
            ColliderRec {
                owner: None,
                shape: ColliderShape::Cuboid(Vec3 { x: 10000, y: 500, z: 10000 }),
                position: Vec3 { x: 0, y: -500, z: 0 },
                parent: None,
            },
        );
        let player_rigid_body_handle = physics.insert_body(
            BodyRec {
                position: Vec3 { x: 0, y: 1500, z: 0 },
                linvel: Vec3 { x: 0, y: 0, z: 0 },
            },
        );
        let _player_collider = physics.insert_collider(
            ColliderRec {
                owner: None,
                shape: ColliderShape::Capsule { half_height: 750, radius: 300 },
                position: Vec3 { x: 0, y: 1500, z: 0 },
                parent: Some(player_rigid_body_handle),
            },
        );
        proof {
            assert forall|id: EntityId| !(#[trigger] world.spec_live(id)) by {}
            assert forall|h: ColliderHandle| !(#[trigger] physics.spec_owner_of(h) is Some) by {
                assert(physics.spec_collider(h) is Some ==> physics.spec_collider(
                    h,
                ).unwrap().owner is None);
            }
        }
        let ghost w_empty = world;
        let mut rng = rng_from_entropy();
        let gunman = Gunman::new(&mut rng);
        let (gid, _gch) = spawn_gunman(
            &mut world,
            &mut physics,
            Vec3 { x: 2000, y: 2500, z: -2000 },
            gunman,
        );
        let ghost w_after_gunman = world;
        proof {
            assert(physics.spec_collider(ground) == Some(spec_floor_collider()));
        }
        let (sid, _sch) = spawn_swordman(
            &mut world,
            &mut physics,
            Vec3 { x: -2000, y: 2500, z: -2000 },
            Swordman::new(),
        );
        let ghost w_before_walls = world;
        proof {
            assert(physics.spec_collider(ground) == Some(spec_floor_collider()));
        }
        let (wid1, _wc1) = spawn_wall(
            &mut world,
            &mut physics,
            Vec3 { x: 0, y: 1400, z: -9500 },
            Vec3 { x: 10000, y: 398, z: 500 },
        );
        let ghost w_after_wall1 = world;
        proof {
            assert(physics.spec_collider(ground) == Some(spec_floor_collider()));
        }
        let (wid2, _wc2) = spawn_wall(
            &mut world,
            &mut physics,
            Vec3 { x: 0, y: 1400, z: 9500 },
            Vec3 { x: 10000, y: 398, z: 500 },
        );
        proof {
            assert(world.spec_live(gid) && world.spec_get(gid).unwrap().kind is Gunman);
            assert(world.spec_live(sid) && world.spec_get(sid).unwrap().kind is Swordman);
        }
        let s = HitAndDodgeGameScene {
            world,
            physics,
            player_rigid_body_handle,
            delta_shoot_time: Stopwatch::new(),
            shoot_timer: Timer::new_finished(),
            score: Score::new(),
            rng,
            entity_to_remove: Vec::new(),
            round_timer: Timer::new(ROUND_DURATION_MS),
            freeze: false,
            game_state: GameState::Preround,
            difficulty,
        };
        proof {
            assert(s.world.spec_live(gid) && s.world.spec_get(gid).unwrap().kind is Gunman);
            assert(s.world.spec_live(sid) && s.world.spec_get(sid).unwrap().kind is Swordman);
            assert(s.world.spec_live(wid1) && s.world.spec_get(wid1).unwrap().kind is Wall);
            assert(s.world.spec_live(wid2) && s.world.spec_get(wid2).unwrap().kind is Wall);
            assert(wid1 != wid2) by {
                assert(!w_after_wall1.spec_live(wid2));
                assert(w_after_wall1.spec_live(wid1));
            }
            assert forall|id: EntityId| #[trigger] s.world.spec_live(id) implies id == gid || id
                == sid || id == wid1 || id == wid2 by {
                if id != wid2 && id != wid1 && id != sid && id != gid {
                    assert(w_after_wall1.spec_live(id));
                    assert(w_before_walls.spec_live(id));
                    assert(w_after_gunman.spec_live(id));
                    assert(w_empty.spec_live(id));
                    assert(false);
                }
            }
            assert(s.physics.spec_collider(ground) == Some(spec_floor_collider()));
            assert(s.physics.spec_body(player_rigid_body_handle) == Some(
                BodyRec {
                    position: (Vec3 { x: 0i32, y: 1500i32, z: 0i32 }),
                    linvel: (Vec3 { x: 0i32, y: 0i32, z: 0i32 }),
                },
            ));
            assert forall|o: EntityId|
                #[trigger] s.world.spec_live(o) && s.world.spec_get(o).unwrap().kind
                    is Wall implies o == wid1 || o == wid2 by {
                assert(o == gid || o == sid || o == wid1 || o == wid2);
            }
        }
        s
    }

    /// Scene setup: the ground slab goes into the static list; a message
    /// from the pause overlay freezes the round behind a fresh prepare
    /// countdown, and must carry the difficulty it was opened with.
    pub fn init(&mut self, message: &MaybeMessage, queue: &mut RenderObjects) -> (r: Result<
        (),
        FatalError,
    >)
        requires
            old(self).wf(),
            message is Some ==> message.unwrap().wf(),
        ensures
            final(self).wf(),
            final(self).world == old(self).world,
            final(self).physics == old(self).physics,
            final(self).score == old(self).score,
            final(self).round_timer == old(self).round_timer,
            final(queue).render_objects@ == old(queue).render_objects@,
            final(queue).render_objects_static@ == old(queue).render_objects_static@.push(
                spec_floor_record(),
            ),
            match spec_rejects(*message) {
                None => r is Ok && *final(self) == old(self).spec_inited(*message),
                Some(e) => r == Err::<(), FatalError>(e),
            },
    {
        let rec = RenderQueueData {
            position: Vec3 { x: 0, y: -500, z: 0 },
            shape_data1: Vec4 { x: 10000, y: 500, z: 10000, w: 0 },
            shape_type_material_ids: ShapeMaterials {
                shape: ShapeType::Cuboid,
                material_0: MaterialType::CobblestonePaving,
                material_1: MaterialType::Red,
                material_2: MaterialType::Red,
            },
            ..RenderQueueData::new_none()
        };
        let r = queue.next_static();
        *r = (rec, ObjectBound::Sphere(21000));
        match message {
            None => Ok(()),
            Some(m) => {
                if m.contains_key("from_pause") {
                    self.freeze = true;
                    self.game_state = GameState::Prepare(Timer::new(PREPARE_DURATION_MS));
                }
                let difficulty_index: i64 = match m.get("difficulty") {
                    Some(MessageValue::I64(x)) => *x,
                    Some(_) => {
                        return Err(FatalError::MessageTypeMismatch);
                    },
                    None => {
                        return Err(FatalError::MessageKeyMissing);
                    },
                };
                match GameDifficulty::from_index(difficulty_index) {
                    Ok(d) => {
                        self.difficulty = d;
                        Ok(())
                    },
                    Err(e) => Err(e),
                }
            },
        }
    }

    /// The round flow of one frame: waiting for the first click, the
    /// prepare countdown, the running round's clocks, or the finishing
    /// banner. Returns whether the round is running (enemies act and
    /// shots resolve) and whether the banner has run out.
    pub fn advance_state(&mut self, delta_ms: u32, input: &FrameInput) -> (r: (bool, bool))
        ensures
            final(self).world == old(self).world,
            final(self).physics == old(self).physics,
            final(self).score == old(self).score,
            final(self).difficulty == old(self).difficulty,
            match old(self).game_state {
                GameState::Preround => {
                    &&& r.0 == false && r.1 == false
                    &&& final(self).freeze == old(self).freeze
                    &&& final(self).round_timer == old(self).round_timer
                    &&& final(self).shoot_timer == old(self).shoot_timer
                    &&& final(self).delta_shoot_time == old(self).delta_shoot_time
                    &&& if input.any_mouse_pressed {
                        final(self).game_state == GameState::Prepare(
                            Timer { remaining_ms: PREPARE_DURATION_MS },
                        )
                    } else {
                        final(self).game_state is Preround
                    }
                },
                GameState::Prepare(t) => {
                    let left = t.spec_updated(delta_ms);
                    &&& r.0 == false && r.1 == false
                    &&& final(self).round_timer == old(self).round_timer
                    &&& final(self).shoot_timer == old(self).shoot_timer
                    &&& final(self).delta_shoot_time == old(self).delta_shoot_time
                    &&& if left.remaining_ms == 0 {
                        &&& final(self).game_state is Round
                        &&& !final(self).freeze
                    } else {
                        &&& final(self).game_state == GameState::Prepare(left)
                        &&& final(self).freeze == old(self).freeze
                    }
                },
                GameState::Round => {
                    &&& r.0 == true && r.1 == false
                    &&& final(self).freeze == old(self).freeze
                    &&& final(self).game_state is Round
                    &&& final(self).round_timer == old(self).round_timer.spec_updated(delta_ms)
                    &&& final(self).shoot_timer == old(self).shoot_timer.spec_updated(delta_ms)
                    &&& final(self).delta_shoot_time.elapsed_ms == if old(self).delta_shoot_time.elapsed_ms + delta_ms <= u64::MAX {
                        old(self).delta_shoot_time.elapsed_ms + delta_ms
                    } else {
                        u64::MAX as int
                    }
                },
                GameState::Finishing(t) => {
                    let left = t.spec_updated(delta_ms);
                    &&& r.0 == false
                    &&& final(self).freeze == old(self).freeze
                    &&& final(self).round_timer == old(self).round_timer
                    &&& final(self).shoot_timer == old(self).shoot_timer
                    &&& final(self).delta_shoot_time == old(self).delta_shoot_time
                    &&& final(self).game_state == GameState::Finishing(left)
                    &&& r.1 == (left.remaining_ms == 0)
                },
            },
    {
        match &mut self.game_state {
            GameState::Preround => {
                if input.any_mouse_pressed {
                    self.game_state = GameState::Prepare(Timer::new(PREPARE_DURATION_MS));
                }
                (false, false)
            },
            GameState::Prepare(t) => {
                t.update(delta_ms);
                if t.is_finished() {
                    self.freeze = false;
                    self.game_state = GameState::Round;
                }
                (false, false)
            },
            GameState::Round => {
                self.round_timer.update(delta_ms);
                self.shoot_timer.update(delta_ms);
                self.delta_shoot_time.update(delta_ms);
                (true, false)
            },
            GameState::Finishing(t) => {
                t.update(delta_ms);
                let done = t.is_finished();
                (false, done)
            },
        }
    }

    /// Close the running round when its clock has run out: the finishing
    /// banner goes up.
    pub fn end_round_check(&mut self)
        ensures
            final(self).world == old(self).world,
            final(self).physics == old(self).physics,
            final(self).score == old(self).score,
            final(self).round_timer == old(self).round_timer,
            if old(self).game_state is Round && old(self).round_timer.remaining_ms == 0 {
                final(self).game_state == GameState::Finishing(
                    Timer { remaining_ms: FINISHING_DURATION_MS },
                )
            } else {
                final(self).game_state == old(self).game_state
            },
    {
        let is_round = matches!(self.game_state, GameState::Round);
        if is_round && self.round_timer.is_finished() {
            self.game_state = GameState::Finishing(Timer::new(FINISHING_DURATION_MS));
        }
    }

    /// The removal sweep: bullets age by the frame's delta, and every
    /// dead enemy and every spent bullet is torn down — bundle, collider
    /// and body together, after the walk.
    pub fn sweep_dead(&mut self, delta_ms: u32)
        requires
            old(self).wf(),
        ensures
            final(self).wf(),
            final(self).score == old(self).score,
            final(self).round_timer == old(self).round_timer,
            final(self).shoot_timer == old(self).shoot_timer,
            final(self).delta_shoot_time == old(self).delta_shoot_time,
            final(self).game_state == old(self).game_state,
            final(self).freeze == old(self).freeze,
            final(self).difficulty == old(self).difficulty,
            final(self).entity_to_remove@.len() == 0,
            forall|id: EntityId|
                #[trigger] old(self).world.spec_live(id) ==> {
                    let b = old(self).world.spec_get(id).unwrap();
                    if dead_kind(b.kind, delta_ms) {
                        &&& !final(self).world.spec_live(id)
                        &&& final(self).world.spec_spent(id)
                        &&& (b.collider is Some ==> final(self).physics.spec_collider(
                            b.collider.unwrap(),
                        ) is None)
                        &&& (b.body is Some ==> final(self).physics.spec_body(b.body.unwrap())
                            is None)
                    } else {
                        final(self).world.spec_get(id) == Some(
                            ComponentBundle {
                                kind: advanced_kind(b.kind, delta_ms),
                                collider: b.collider,
                                body: b.body,
                            },
                        ) && final(self).world.spec_live(id)
                    }
                },
            forall|id: EntityId|
                old(self).world.spec_spent(id) ==> final(self).world.spec_spent(id),
            forall|h: ColliderHandle|
                #[trigger] old(self).physics.spec_collider(h) is Some ==> {
                    let ow = old(self).physics.spec_collider(h).unwrap().owner;
                    if ow is Some && old(self).world.spec_live(ow.unwrap()) && dead_kind(
                        old(self).world.spec_get(ow.unwrap()).unwrap().kind,
                        delta_ms,
                    ) {
                        final(self).physics.spec_collider(h) is None
                    } else {
                        final(self).physics.spec_collider(h) == old(self).physics.spec_collider(h)
                    }
                },
    {
        let ghost w0 = self.world;
        let ghost p0 = self.physics;
        let n = self.world.slot_count();
        self.entity_to_remove.clear();
        let mut i: usize = 0;
        while i < n
            invariant
                coupled(w0, p0),
                self.world.wf(),
                n == w0.slots@.len(),
                i <= n,
                self.world.slots@.len() == n,
                self.world.generations@ == w0.generations@,
                self.physics == p0,
                self.score == old(self).score,
                self.round_timer == old(self).round_timer,
                self.shoot_timer == old(self).shoot_timer,
                self.delta_shoot_time == old(self).delta_shoot_time,
                self.game_state == old(self).game_state,
                self.freeze == old(self).freeze,
                self.difficulty == old(self).difficulty,
                self.player_rigid_body_handle == old(self).player_rigid_body_handle,
                self.entity_to_remove@ == dead_ids(w0, delta_ms, i as int),
                forall|j: int| i <= j < n ==> self.world.slots@[j] == #[trigger] w0.slots@[j],
                forall|j: int|
                    0 <= j < i && #[trigger] lv_at(w0, j) ==> self.world.slots@[j] == Some(
                        ComponentBundle {
                            kind: advanced_kind(w0.slots@[j].unwrap().kind, delta_ms),
                            collider: w0.slots@[j].unwrap().collider,
                            body: w0.slots@[j].unwrap().body,
                        },
                    ),
                forall|j: int|
                    0 <= j < i && !(#[trigger] lv_at(w0, j)) ==> self.world.slots@[j]
                        == w0.slots@[j],
            decreases n - i,
        {
            let slot_some = self.world.slots[i].is_some();
            if slot_some {
                proof {
                    assert(self.world.slots@[i as int] == w0.slots@[i as int]);
                    assert(lv_at(w0, i as int));
                }
                let b = match &self.world.slots[i] {
                    Some(bb) => *bb,
                    None => {
                        proof {
                            assert(false);
                        }
                        ComponentBundle { kind: EntityKind::Wall, collider: None, body: None }
                    },
                };
                let (kind2, dead): (EntityKind, bool) = match b.kind {
                    EntityKind::Swordman(sw) => (EntityKind::Swordman(sw), sw.is_dead()),
                    EntityKind::Gunman(g) => (EntityKind::Gunman(g), g.is_dead()),
                    EntityKind::Bullet(bl0) => {
                        let mut bl = bl0;
                        let due = bl.is_need_to_be_deleted(delta_ms);
                        (EntityKind::Bullet(bl), due)
                    },
                    other => (other, false),
                };
                let id = self.world.id_at(i);
                match self.world.set(
                    id,
                    ComponentBundle { kind: kind2, collider: b.collider, body: b.body },
                ) {
                    Ok(()) => {},
                    Err(_) => {
                        proof {
                            assert(false);
                        }
                    },
                }
                if dead {
                    self.entity_to_remove.push(id);
                    proof {
                        assert(dead_kind(w0.slots@[i as int].unwrap().kind, delta_ms));
                        assert(id == hd_slot_id(w0, i as int));
                        assert(self.entity_to_remove@ =~= dead_ids(w0, delta_ms, i + 1 as int));
                    }
                } else {
                    proof {
                        assert(!dead_kind(w0.slots@[i as int].unwrap().kind, delta_ms));
                        assert(self.entity_to_remove@ =~= dead_ids(w0, delta_ms, i + 1 as int));
                    }
                }
            } else {
                proof {
                    assert(self.world.slots@[i as int] == w0.slots@[i as int]);
                    assert(!lv_at(w0, i as int));
                    assert(self.entity_to_remove@ =~= dead_ids(w0, delta_ms, i + 1 as int));
                }
            }
            i = i + 1;
        }
        let ghost w1 = self.world;
        proof {
            lemma_dead_ids_sound(w0, delta_ms, n as int);
            let w2 = self.world;
            let p2 = self.physics;
            assert forall|o: EntityId| #[trigger] w2.spec_live(o) implies w0.spec_live(o)
                && w2.spec_get(o).unwrap().collider == w0.spec_get(o).unwrap().collider
                && w2.spec_get(o).unwrap().body == w0.spec_get(o).unwrap().body by {
                let j = o.index as int;
                if lv_at(w0, j) {
                    assert(w0.slots@[j] is Some);
                } else {
                    assert(w2.slots@[j] == w0.slots@[j]);
                }
            }
            assert forall|o: EntityId| #[trigger] w0.spec_live(o) implies w2.spec_live(o) by {
                let j = o.index as int;
                assert(lv_at(w0, j));
            }
            assert forall|o: EntityId| #[trigger] w2.spec_live(o) implies backref_ok(
                w2,
                p2,
                o,
            ) by {
                assert(w0.spec_live(o));
                assert(backref_ok(w0, p0, o));
                let j = o.index as int;
                assert(lv_at(w0, j));
            }
            assert forall|h: ColliderHandle| #[trigger] p2.spec_owner_of(h) is Some implies {
                let o = p2.spec_owner_of(h).unwrap();
                &&& w2.spec_live(o)
                &&& w2.spec_get(o).unwrap().collider == Some(h)
            } by {
                let o = p0.spec_owner_of(h).unwrap();
                assert(w0.spec_live(o));
            }
            assert forall|id1: EntityId, id2: EntityId|
                #[trigger] w2.spec_live(id1) && #[trigger] w2.spec_live(id2) && id1
                    != id2 implies !(w2.spec_get(id1).unwrap().body is Some && w2.spec_get(
                id1,
            ).unwrap().body == w2.spec_get(id2).unwrap().body) by {
                assert(w0.spec_live(id1));
                assert(w0.spec_live(id2));
            }
            assert forall|k: int| 0 <= k < self.entity_to_remove@.len() implies {
                let id = #[trigger] self.entity_to_remove@[k];
                &&& w1.spec_live(id)
                &&& w1.spec_get(id).unwrap().collider == w0.slots@[
                    id.index as int
                ].unwrap().collider
                &&& w1.spec_get(id).unwrap().body == w0.slots@[id.index as int].unwrap().body
            } by {
                let id = self.entity_to_remove@[k];
                let j = id.index as int;
                assert(lv_at(w0, j));
                assert(id == hd_slot_id(w0, j));
                assert(w0.spec_live(id));
                assert(w1.slots@[j] == Some(
                    ComponentBundle {
                        kind: advanced_kind(w0.slots@[j].unwrap().kind, delta_ms),
                        collider: w0.slots@[j].unwrap().collider,
                        body: w0.slots@[j].unwrap().body,
                    },
                ));
                assert(w1.spec_live(id));
                assert(w1.spec_get(id) == w1.slots@[j]);
            }
        }
        let nrem = self.entity_to_remove.len();
        let mut m: usize = 0;
        while m < nrem
            invariant
                coupled(self.world, self.physics),
                nrem == self.entity_to_remove@.len(),
                m <= nrem,
                self.entity_to_remove@ == dead_ids(w0, delta_ms, n as int),
                self.score == old(self).score,
                self.round_timer == old(self).round_timer,
                self.shoot_timer == old(self).shoot_timer,
                self.delta_shoot_time == old(self).delta_shoot_time,
                self.game_state == old(self).game_state,
                self.freeze == old(self).freeze,
                self.difficulty == old(self).difficulty,
                self.player_rigid_body_handle == old(self).player_rigid_body_handle,
                w1.wf(),
                n == w0.slots@.len(),
                w1.slots@.len() == n,
                self.world.slots@.len() == n,
                forall|k: int|
                    0 <= k < nrem ==> {
                        let id = #[trigger] self.entity_to_remove@[k];
                        &&& (id.index as int) < n
                        &&& lv_at(w0, id.index as int)
                        &&& dead_kind(w0.slots@[id.index as int].unwrap().kind, delta_ms)
                        &&& id == hd_slot_id(w0, id.index as int)
                        &&& w1.spec_get(id).unwrap().collider == w0.slots@[
                            id.index as int
                        ].unwrap().collider
                        &&& w1.spec_get(id).unwrap().body == w0.slots@[
                            id.index as int
                        ].unwrap().body
                    },
                forall|k1: int, k2: int|
                    0 <= k1 < k2 < nrem ==> (#[trigger] self.entity_to_remove@[k1]).index < (
                    #[trigger] self.entity_to_remove@[k2]).index,
                forall|k: int|
                    m <= k < nrem ==> self.world.spec_live(#[trigger] self.entity_to_remove@[k])
                        && self.world.spec_get(self.entity_to_remove@[k]) == w1.spec_get(
                        self.entity_to_remove@[k],
                    ),
                forall|k: int|
                    0 <= k < m ==> {
                        let id = #[trigger] self.entity_to_remove@[k];
                        &&& !self.world.spec_live(id)
                        &&& self.world.spec_spent(id)
                        &&& (w1.spec_get(id).unwrap().collider is Some
                            ==> self.physics.spec_collider(
                            w1.spec_get(id).unwrap().collider.unwrap(),
                        ) is None)
                        &&& (w1.spec_get(id).unwrap().body is Some ==> self.physics.spec_body(
                            w1.spec_get(id).unwrap().body.unwrap(),
                        ) is None)
                    },
                forall|o: EntityId|
                    #[trigger] w1.spec_live(o) && !(lv_at(w0, o.index as int) && dead_kind(
                        w0.slots@[o.index as int].unwrap().kind,
                        delta_ms,
                    )) ==> self.world.spec_get(o) == w1.spec_get(o) && self.world.spec_live(o),
                forall|o: EntityId| w1.spec_spent(o) ==> #[trigger] self.world.spec_spent(o),
                forall|o: EntityId| #[trigger] self.world.spec_live(o) ==> w1.spec_live(o),
                forall|h: ColliderHandle|
                    #[trigger] p0.spec_collider(h) is Some && (p0.spec_collider(h).unwrap().owner
                        is Some ==> !dead_kind(
                        w0.slots@[
                            p0.spec_collider(h).unwrap().owner.unwrap().index as int
                        ].unwrap().kind,
                        delta_ms,
                    )) ==> self.physics.spec_collider(h) == p0.spec_collider(h),
            decreases nrem - m,
        {
            let id = self.entity_to_remove[m];
            let ghost wb = self.world;
            let ghost pb = self.physics;
            proof {
                assert(wb.spec_live(id));
                assert(wb.spec_get(id) == w1.spec_get(id));
            }
            match despawn_entity(&mut self.world, &mut self.physics, id) {
                Ok(_) => {},
                Err(_) => {
                    proof {
                        assert(false);
                    }
                },
            }
            proof {
                assert forall|k: int| 0 <= k < m + 1 implies {
                    let rid = #[trigger] self.entity_to_remove@[k];
                    &&& !self.world.spec_live(rid)
                    &&& self.world.spec_spent(rid)
                    &&& (w1.spec_get(rid).unwrap().collider is Some
                        ==> self.physics.spec_collider(
                        w1.spec_get(rid).unwrap().collider.unwrap(),
                    ) is None)
                    &&& (w1.spec_get(rid).unwrap().body is Some ==> self.physics.spec_body(
                        w1.spec_get(rid).unwrap().body.unwrap(),
                    ) is None)
                } by {
                    let rid = self.entity_to_remove@[k];
                    if k < m {
                        assert(rid != id);
                        if w1.spec_get(rid).unwrap().collider is Some {
                            let hc = w1.spec_get(rid).unwrap().collider.unwrap();
                            assert(pb.spec_collider(hc) is None);
                            if self.physics.spec_collider(hc) is Some {
                                assert(false);
                            }
                        }
                        if w1.spec_get(rid).unwrap().body is Some {
                            let hb = w1.spec_get(rid).unwrap().body.unwrap();
                            assert(pb.spec_body(hb) is None);
                            if self.physics.spec_body(hb) is Some {
                                assert(false);
                            }
                        }
                    } else {
                        assert(rid == id);
                        assert(wb.spec_get(id) == w1.spec_get(id));
                    }
                }
                assert forall|k: int| m + 1 <= k < nrem implies self.world.spec_live(
                    #[trigger] self.entity_to_remove@[k],
                ) && self.world.spec_get(self.entity_to_remove@[k]) == w1.spec_get(
                    self.entity_to_remove@[k],
                ) by {
                    let rid = self.entity_to_remove@[k];
                    assert(rid.index != id.index);
                    assert(rid != id);
                    assert(wb.spec_live(rid));
                    assert(wb.spec_get(rid) == w1.spec_get(rid));
                }
                assert forall|h: ColliderHandle|
                    #[trigger] p0.spec_collider(h) is Some && (p0.spec_collider(h).unwrap().owner
                        is Some ==> !dead_kind(
                        w0.slots@[
                            p0.spec_collider(h).unwrap().owner.unwrap().index as int
                        ].unwrap().kind,
                        delta_ms,
                    )) implies self.physics.spec_collider(h) == p0.spec_collider(h) by {
                    assert(pb.spec_collider(h) == p0.spec_collider(h));
                    let bw = wb.spec_get(id);
                    if bw.unwrap().collider == Some(h) {
                        assert(w1.spec_get(id).unwrap().collider == Some(h));
                        assert(pb.spec_owner_of(h) is Some);
                        let ow = pb.spec_owner_of(h).unwrap();
                        assert(ow == id);
                        assert(dead_kind(w0.slots@[id.index as int].unwrap().kind, delta_ms));
                        assert(p0.spec_collider(h).unwrap().owner == pb.spec_collider(
                            h,
                        ).unwrap().owner);
                        assert(false);
                    }
                }
            }
            m = m + 1;
        }
        self.entity_to_remove.clear();
        proof {
            let w2 = self.world;
            let p2 = self.physics;
            assert forall|id: EntityId| #[trigger] w0.spec_live(id) implies {
                let b = w0.spec_get(id).unwrap();
                if dead_kind(b.kind, delta_ms) {
                    &&& !w2.spec_live(id)
                    &&& w2.spec_spent(id)
                    &&& (b.collider is Some ==> p2.spec_collider(b.collider.unwrap()) is None)
                    &&& (b.body is Some ==> p2.spec_body(b.body.unwrap()) is None)
                } else {
                    w2.spec_get(id) == Some(
                        ComponentBundle {
                            kind: advanced_kind(b.kind, delta_ms),
                            collider: b.collider,
                            body: b.body,
                        },
                    ) && w2.spec_live(id)
                }
            } by {
                let j = id.index as int;
                assert(lv_at(w0, j));
                assert(w0.spec_get(id) == w0.slots@[j]);
                let b = w0.slots@[j].unwrap();
                if dead_kind(b.kind, delta_ms) {
                    lemma_dead_ids_complete(w0, delta_ms, n as int, j);
                    let k = choose|k: int|
                        0 <= k < dead_ids(w0, delta_ms, n as int).len() && #[trigger] dead_ids(
                            w0,
                            delta_ms,
                            n as int,
                        )[k] == hd_slot_id(w0, j);
                    assert(dead_ids(w0, delta_ms, n as int)[k] == id);
                } else {
                    assert(w1.spec_live(id));
                    assert(w1.spec_get(id) == w1.slots@[j]);
                }
            }
            assert forall|h: ColliderHandle|
                #[trigger] p0.spec_collider(h) is Some implies {
                let ow = p0.spec_collider(h).unwrap().owner;
                if ow is Some && w0.spec_live(ow.unwrap()) && dead_kind(
                    w0.spec_get(ow.unwrap()).unwrap().kind,
                    delta_ms,
                ) {
                    p2.spec_collider(h) is None
                } else {
                    p2.spec_collider(h) == p0.spec_collider(h)
                }
            } by {
                let ow = p0.spec_collider(h).unwrap().owner;
                if ow is Some && w0.spec_live(ow.unwrap()) && dead_kind(
                    w0.spec_get(ow.unwrap()).unwrap().kind,
                    delta_ms,
                ) {
                    let id = ow.unwrap();
                    assert(p0.spec_owner_of(h) == Some(id));
                    assert(w0.spec_get(id).unwrap().collider == Some(h));
                    assert(w0.spec_get(id) == w0.slots@[id.index as int]);
                    assert(!w2.spec_live(id));
                } else {
                    if ow is Some {
                        assert(p0.spec_owner_of(h) is Some);
                        let id = ow.unwrap();
                        assert(w0.spec_live(id));
                        assert(w0.spec_get(id) == w0.slots@[id.index as int]);
                    }
                }
            }
        }
    }

    /// The fire decision of the frame: a shot goes out exactly when the
    /// trigger is pressed and the weapon cooldown has run out; firing
    /// restarts the cooldown. Run only while the round is running.
    pub fn decide_fire(&mut self, input: &FrameInput) -> (fire: bool)
        ensures
            fire == (input.left_mouse_pressed && old(self).shoot_timer.remaining_ms == 0),
            final(self).shoot_timer.remaining_ms == if fire {
                SHOOT_COOLDOWN_MS as int
            } else {
                old(self).shoot_timer.remaining_ms as int
            },
            final(self).world == old(self).world,
            final(self).physics == old(self).physics,
            final(self).score == old(self).score,
            final(self).game_state == old(self).game_state,
            final(self).round_timer == old(self).round_timer,
            final(self).delta_shoot_time == old(self).delta_shoot_time,
    {
        let fire = input.left_mouse_pressed && self.shoot_timer.is_finished();
        if fire {
            self.shoot_timer.reset(SHOOT_COOLDOWN_MS);
        }
        fire
    }

    /// Resolve one shot: a hit on a gunman or swordman lands on that
    /// enemy; anything else — no hit, world geometry, or an entity with
    /// no hittable component — is a miss and costs the penalty.
    pub fn resolve_shot(&mut self, hit: Option<ColliderHandle>)
        requires
            old(self).wf(),
        ensures
            final(self).wf(),
            final(self).shoot_timer == old(self).shoot_timer,
            final(self).round_timer == old(self).round_timer,
            final(self).game_state == old(self).game_state,
            final(self).delta_shoot_time == old(self).delta_shoot_time,
            final(self).physics == old(self).physics,
            ({
                let target_id = match hit {
                    Some(h) => old(self).physics.spec_owner_of(h),
                    None => None,
                };
                let hittable = match target_id {
                    Some(id) => match old(self).world.spec_get(id) {
                        Some(b) => b.kind is Gunman || b.kind is Swordman,
                        None => false,
                    },
                    None => false,
                };
                if hittable {
                    let id = target_id.unwrap();
                    let b = old(self).world.spec_get(id).unwrap();
                    &&& final(self).score == old(self).score
                    &&& (b.kind is Gunman ==> final(self).world.spec_get(id) == Some(
                        ComponentBundle {
                            kind: EntityKind::Gunman(
                                Gunman {
                                    health: if b.kind->Gunman_0.health > 0 {
                                        (b.kind->Gunman_0.health - 1) as u32
                                    } else {
                                        0u32
                                    },
                                    state: b.kind->Gunman_0.state,
                                },
                            ),
                            collider: b.collider,
                            body: b.body,
                        },
                    ))
                    &&& (b.kind is Swordman ==> final(self).world.spec_get(id) is Some && final(self).world.spec_get(id).unwrap().kind is Swordman && {
                        let s0 = b.kind->Swordman_0;
                        let s1 = final(self).world.spec_get(id).unwrap().kind->Swordman_0;
                        &&& s1.health == (if s0.health > 0 {
                            s0.health - 1
                        } else {
                            0int
                        })
                        &&& s1.hurt.remaining_ms == crate::swordman::SWORDMAN_HURT_MS
                        &&& s1.facing == s0.facing
                    })
                    &&& forall|o: EntityId|
                        o != id ==> final(self).world.spec_get(o) == old(self).world.spec_get(o)
                    &&& forall|o: EntityId|
                        o != id ==> (final(self).world.spec_live(o) <==> old(self).world.spec_live(o))
                } else {
                    &&& final(self).world == old(self).world
                    &&& final(self).score.score == clamp32(old(self).score.score - MISS_PENALTY)
                    &&& final(self).score.miss == (if old(self).score.miss < u16::MAX {
                        old(self).score.miss + 1
                    } else {
                        u16::MAX as int
                    })
                    &&& final(self).score.hit == old(self).score.hit
                    &&& final(self).score.total_shoot_time == old(self).score.total_shoot_time
                }
            }),
    {
        let resolved: Option<EntityId> = match hit {
            Some(h) => self.physics.entity_of_collider(h),
            None => None,
        };
        let mut landed = false;
        match resolved {
            Some(id) => {
                let bundle_opt = match self.world.get(id) {
                    Some(b) => Some(*b),
                    None => None,
                };
                match bundle_opt {
                    Some(b) => {
                        match b.kind {
                            EntityKind::Gunman(g0) => {
                                let mut g = g0;
                                g.hit();
                                match self.world.set(
                                    id,
                                    ComponentBundle {
                                        kind: EntityKind::Gunman(g),
                                        collider: b.collider,
                                        body: b.body,
                                    },
                                ) {
                                    Ok(()) => {},
                                    Err(_) => {
                                        proof {
                                            assert(false);
                                        }
                                    },
                                }
                                landed = true;
                            },
                            EntityKind::Swordman(s0) => {
                                let mut sw = s0;
                                sw.hit();
                                match self.world.set(
                                    id,
                                    ComponentBundle {
                                        kind: EntityKind::Swordman(sw),
                                        collider: b.collider,
                                        body: b.body,
                                    },
                                ) {
                                    Ok(()) => {},
                                    Err(_) => {
                                        proof {
                                            assert(false);
                                        }
                                    },
                                }
                                landed = true;
                            },
                            _ => {},
                        }
                    },
                    None => {},
                }
            },
            None => {},
        }
        if !landed {
            self.score.score = add_penalty(self.score.score);
            self.score.miss = inc_miss(self.score.miss);
        }
        proof {
            if landed {
                let w0 = old(self).world;
                let p0 = old(self).physics;
                let w2 = self.world;
                let id = resolved.unwrap();
                assert forall|o: EntityId| #[trigger] w2.spec_live(o) implies backref_ok(
                    w2,
                    self.physics,
                    o,
                ) by {
                    assert(w0.spec_live(o));
                    assert(backref_ok(w0, p0, o));
                }
                assert forall|h: ColliderHandle|
                    #[trigger] self.physics.spec_owner_of(h) is Some implies {
                    let o = self.physics.spec_owner_of(h).unwrap();
                    &&& w2.spec_live(o)
                    &&& w2.spec_get(o).unwrap().collider == Some(h)
                } by {
                    let o = p0.spec_owner_of(h).unwrap();
                    assert(w0.spec_live(o));
                }
                assert forall|id1: EntityId, id2: EntityId|
                    #[trigger] w2.spec_live(id1) && #[trigger] w2.spec_live(id2) && id1
                        != id2 implies !(w2.spec_get(id1).unwrap().body is Some && w2.spec_get(
                    id1,
                ).unwrap().body == w2.spec_get(id2).unwrap().body) by {
                    assert(w0.spec_live(id1));
                    assert(w0.spec_live(id2));
                }
            }
        }
    }

    /// Close the frame: pausing wins over everything, carrying the
    /// difficulty for the resume message; otherwise a finished banner
    /// pushes the score display with the round's result.
    pub fn check_transition(&self, finished: bool, input: &FrameInput) -> (op: SceneOp)
        ensures
            input.escape_pressed ==> match op {
                SceneOp::Push(sc, msg) => {
                    &&& *sc == Scene::Pause(PauseScene { difficulty: Some(self.difficulty) })
                    &&& msg is None
                },
                _ => false,
            },
            !input.escape_pressed && finished ==> match op {
                SceneOp::Push(sc, msg) => {
                    &&& *sc == Scene::Score(
                        HitAndDodgeScoreScene {
                            score: (HitAndDodgeGameScoreDisplay {
                                accuracy: 0u32,
                                hit: 0u16,
                                miss: 0u16,
                                score: 0i32,
                                avg_hit_time: 0i64,
                                created_at: 0i64,
                            }),
                        },
                    )
                    &&& msg is Some
                    &&& msg.unwrap().wf()
                    &&& msg.unwrap().spec_get("hit"@) == Some(
                        MessageValue::I64(self.score.hit as i64),
                    )
                    &&& msg.unwrap().spec_get("score"@) == Some(
                        MessageValue::I64(self.score.score as i64),
                    )
                    &&& msg.unwrap().spec_get("miss"@) == Some(
                        MessageValue::I64(self.score.miss as i64),
                    )
                    &&& msg.unwrap().spec_get("avg_hit_time"@) == Some(
                        MessageValue::I64(
                            (self.score.total_shoot_time as int / (if self.score.hit == 0 {
                                1int
                            } else {
                                self.score.hit as int
                            })) as i64,
                        ),
                    )
                },
                _ => false,
            },
            !input.escape_pressed && !finished ==> op is NoOp,
    {
        if input.escape_pressed {
            SceneOp::Push(
                Box::new(Scene::Pause(PauseScene::new(Some(self.difficulty)))),
                None,
            )
        } else if finished {
            let mut msg = Message::new();
            self.score.write_message(&mut msg);
            SceneOp::Push(Box::new(Scene::Score(HitAndDodgeScoreScene::new())), Some(msg))
        } else {
            SceneOp::NoOp
        }
    }

    /// Fill this frame's drawable records: the enemies, their bullets,
    /// any targets, and the boundary walls, in that order.
    pub fn prerender(&mut self, queue: &mut RenderObjects)
        ensures
            *final(self) == *old(self),
            final(queue).render_objects_static@ == old(queue).render_objects_static@,
            ({
                let w = old(self).world;
                let p = old(self).physics;
                let n = w.slots@.len() as int;
                final(queue).render_objects@ == old(queue).render_objects@ + gunman_records(
                    w,
                    p,
                    n,
                ) + bullet_records(w, p, n) + swordman_records(w, p, n) + target_records(w, p, n)
                    + wall_records(w, p, n, MaterialType::StoneWall)
            }),
    {
        enqueue_gunman(&mut self.world, &mut self.physics, queue);
        enqueue_bullet(&mut self.world, &mut self.physics, queue);
        enqueue_swordman(&mut self.world, &mut self.physics, queue);
        enqueue_target(&mut self.world, &mut self.physics, queue);
        enqueue_wall(&mut self.world, &mut self.physics, queue, MaterialType::StoneWall);
    }

    /// Scene teardown: every drawable record the scene owned is dropped.
    pub fn deinit(&mut self, queue: &mut RenderObjects)
        ensures
            *final(self) == *old(self),
            final(queue).render_objects@.len() == 0,
            final(queue).render_objects_static@.len() == 0,
    {
        queue.clear();
    }
}

/// Charge one miss penalty, saturating.
fn add_penalty(score: i32) -> (r: i32)
    ensures
        r as int == clamp32(score - MISS_PENALTY),
{
    if score >= i32::MIN + MISS_PENALTY {
        score - MISS_PENALTY
    } else {
        i32::MIN
    }
}

/// An unbounded value pressed into the 32-bit range.
pub open spec fn clamp32(v: int) -> int {
    if v > i32::MAX {
        i32::MAX as int
    } else if v < i32::MIN {
        i32::MIN as int
    } else {
        v
    }
}

/// Saturating counter increment.
fn inc_miss(x: u16) -> (r: u16)
    ensures
        r == if x < u16::MAX {
            x + 1
        } else {
            u16::MAX as int
        },
{
    if x < u16::MAX {
        x + 1
    } else {
        u16::MAX
    }
}

} // verus!
