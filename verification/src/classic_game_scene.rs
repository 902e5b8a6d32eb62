//! The classic target-range mode: a countdown round against spawning
//! targets, scored by reaction time.
//!
//! A frame runs in phases, interleaved with the outside collaborators:
//! the timers advance, the removal sweep tears down expired targets, the
//! rigid-body engine steps and rebuilds its ray index, the fire decision
//! is taken, the (possibly empty) ray hit is resolved into scoring, and
//! the transition check closes the frame.

use vstd::prelude::*;

use rand::rngs::SmallRng;

use crate::error::FatalError;
use crate::frustum::ObjectBound;
use crate::geom::{Vec3, Vec4};
use crate::message::{Message, MessageValue};
use crate::physics::{BodyHandle, BodyRec, ColliderHandle, ColliderRec, ColliderShape, GamePhysics};
use crate::render_objects::{
    MaterialType, RenderObjects, RenderQueueData, ShapeMaterials, ShapeType,
};
use crate::rng::{rng_from_entropy, rng_gen_range_i32};
use crate::scene::{FrameInput, Scene, SceneOp};
use crate::systems::{
    backref_ok, coupled, despawn_entity, enqueue_target, spawn_target, target_records,
};
use crate::target::{Target, TARGET_RADIUS_MM};
use crate::timer::{Stopwatch, Timer};
use crate::world::{ComponentBundle, EntityId, EntityKind, EntityWorld};
use crate::hit_and_dodge_score_scene::{HitAndDodgeGameScoreDisplay, HitAndDodgeScoreScene};
use crate::scene::PauseScene;

verus! {

/// How long one round lasts, milliseconds.
pub const GAME_DURATION_MS: u32 = 100000;

/// The countdown before the round starts, milliseconds.
pub const START_COUNTDOWN_MS: u32 = 3000;

/// The pause the weapon needs between shots, milliseconds.
pub const SHOOT_COOLDOWN_MS: u32 = 400;

/// How long a secondary target stays before it counts as missed,
/// milliseconds.
pub const SECONDARY_LIFETIME_MS: u32 = 1000;

/// What a miss costs.
pub const MISS_PENALTY: i32 = 100;

/// The running score of a round.
pub struct Score {
    pub hit: u16,
    pub miss: u16,
    pub score: i32,
    /// Total reaction time over all hits, milliseconds.
    pub total_shoot_time: u32,
}

impl Score {
    pub fn new() -> (r: Score)
        ensures
            r.hit == 0,
            r.miss == 0,
            r.score == 0,
            r.total_shoot_time == 0,
    {
        Score { hit: 0, miss: 0, score: 0, total_shoot_time: 0 }
    }

    /// Write the round's result into a transition message: the hit and
    /// miss counts and the score as 32-bit values, and the average
    /// reaction time in milliseconds.
    pub fn write_message(&self, message: &mut Message)
        requires
            old(message).wf(),
        ensures
            final(message).wf(),
            final(message).spec_get("hit"@) == Some(MessageValue::I32(self.hit as i32)),
            final(message).spec_get("miss"@) == Some(MessageValue::I32(self.miss as i32)),
            final(message).spec_get("score"@) == Some(MessageValue::I32(self.score)),
            final(message).spec_get("avg_hit_time"@) == Some(
                MessageValue::I64(
                    (self.total_shoot_time as int / (if self.hit == 0 {
                        1int
                    } else {
                        self.hit as int
                    })) as i64,
                ),
            ),
            forall|k: Seq<char>|
                k != "hit"@ && k != "miss"@ && k != "score"@ && k != "avg_hit_time"@
                    ==> final(message).spec_get(k) == old(message).spec_get(k),
    {
        proof {
            reveal_strlit("hit");
            reveal_strlit("miss");
            reveal_strlit("score");
            reveal_strlit("avg_hit_time");
            assert("hit"@.len() == 3);
            assert("miss"@.len() == 4);
            assert("score"@.len() == 5);
            assert("avg_hit_time"@.len() == 12);
        }
        let divisor: u32 = if self.hit == 0 {
            1
        } else {
            self.hit as u32
        };
        let avg: u32 = self.total_shoot_time / divisor;
        message.insert("hit", MessageValue::I32(self.hit as i32));
        message.insert("miss", MessageValue::I32(self.miss as i32));
        message.insert("score", MessageValue::I32(self.score));
        message.insert("avg_hit_time", MessageValue::I64(avg as i64));
    }
}

/// Which target the next respawn produces: the fixed primary one, or a
/// randomly placed short-lived secondary one.
#[derive(Clone, Copy, PartialEq, Eq, Structural, Debug)]
pub enum TargetSpawnState {
    Primary,
    Secondary,
}

/// The score a hit earns from its reaction time: three hundred points per
/// second under three seconds, never negative.
pub open spec fn classic_hit_score(shoot_ms: int) -> int {
    let raw = 300 * (3000 - shoot_ms) / 1000;
    if raw >= 0 {
        raw
    } else {
        0
    }
}

/// Compute `classic_hit_score` on the measured reaction time.
fn compute_hit_score(shoot_ms: u64) -> (r: i32)
    ensures
        r == classic_hit_score(shoot_ms as int),
        0 <= r <= 900,
{
    if shoot_ms >= 3000 {
        0
    } else {
        (300 * (3000 - shoot_ms) / 1000) as i32
    }
}

/// An unbounded value pressed into the 32-bit range.
pub open spec fn clamp32(v: int) -> int {
    if v > i32::MAX {
        i32::MAX as int
    } else if v < i32::MIN {
        i32::MIN as int
    } else {
        v
    }
}

/// Saturating signed add; implements `clamp32` of the sum.
fn add_score(a: i32, d: i32) -> (r: i32)
    ensures
        r as int == clamp32(a + d),
{
    let s: i64 = a as i64 + d as i64;
    if s > i32::MAX as i64 {
        i32::MAX
    } else if s < i32::MIN as i64 {
        i32::MIN
    } else {
        s as i32
    }
}

/// Saturating counter increment.
fn inc_u16(x: u16) -> (r: u16)
    ensures
        r == if x < u16::MAX {
            x + 1
        } else {
            u16::MAX as int
        },
{
    if x < u16::MAX {
        x + 1
    } else {
        u16::MAX
    }
}

/// Saturating accumulation of a measured duration.
fn add_time(total: u32, d: u64) -> (r: u32)
    ensures
        r as int == if total + d <= u32::MAX {
            total + d
        } else {
            u32::MAX as int
        },
{
    if d <= (u32::MAX - total) as u64 {
        total + d as u32
    } else {
        u32::MAX
    }
}

/// The unshot target a ray hit lands on, if any: the owner of the hit
/// collider, provided it is a live target that has not been shot yet.
pub open spec fn shot_hit_target(s: ClassicGameScene, hit: Option<ColliderHandle>) -> Option<
    EntityId,
> {
    match hit {
        Some(h) => match s.physics.spec_owner_of(h) {
            Some(id) => match s.world.spec_get(id) {
                Some(b) => if b.kind is Target && !b.kind->Target_0.shot {
                    Some(id)
                } else {
                    None
                },
                None => None,
            },
            None => None,
        },
        None => None,
    }
}

/// Is slot `i` a target with its collider reference?
pub open spec fn tg_at(w: EntityWorld, i: int) -> bool {
    &&& w.slots@[i] is Some
    &&& w.slots@[i].unwrap().kind is Target
    &&& w.slots@[i].unwrap().collider is Some
}

/// The target component in slot `i`.
pub open spec fn tg_comp(w: EntityWorld, i: int) -> Target {
    w.slots@[i].unwrap().kind->Target_0
}

/// The id of the live tenant of slot `i`.
pub open spec fn slot_id(w: EntityWorld, i: int) -> EntityId {
    EntityId { index: i as u32, generation: w.generations@[i] }
}

/// Is slot `i` a target due for despawn after a tick of `delta_ms`?
pub open spec fn tg_due(w: EntityWorld, delta_ms: u32, i: int) -> bool {
    tg_at(w, i) && tg_comp(w, i).spec_due(delta_ms)
}

/// The ids of the targets due for despawn among the first `n` slots, in
/// slot order: the removal list the sweep collects.
pub open spec fn due_ids(w: EntityWorld, delta_ms: u32, n: int) -> Seq<EntityId>
    decreases n,
{
    if n <= 0 {
        Seq::empty()
    } else {
        let prev = due_ids(w, delta_ms, n - 1);
        if tg_due(w, delta_ms, n - 1) {
            prev.push(slot_id(w, n - 1))
        } else {
            prev
        }
    }
}

/// Every collected id names the due target of its own slot, and the list
/// is ordered by slot.
proof fn lemma_due_ids_sound(w: EntityWorld, delta_ms: u32, n: int)
    requires
        w.wf(),
        0 <= n <= w.slots@.len(),
    ensures
        forall|k: int|
            0 <= k < due_ids(w, delta_ms, n).len() ==> {
                let id = #[trigger] due_ids(w, delta_ms, n)[k];
                &&& (id.index as int) < n
                &&& tg_due(w, delta_ms, id.index as int)
                &&& id == slot_id(w, id.index as int)
            },
        forall|k1: int, k2: int|
            0 <= k1 < k2 < due_ids(w, delta_ms, n).len() ==> (#[trigger] due_ids(
                w,
                delta_ms,
                n,
            )[k1]).index < (#[trigger] due_ids(w, delta_ms, n)[k2]).index,
    decreases n,
{
    if n > 0 {
        lemma_due_ids_sound(w, delta_ms, n - 1);
        let cur = due_ids(w, delta_ms, n);
        let prev = due_ids(w, delta_ms, n - 1);
        if tg_due(w, delta_ms, n - 1) {
            assert(cur == prev.push(slot_id(w, n - 1)));
            assert((slot_id(w, n - 1).index as int) == n - 1);
            assert forall|k: int| 0 <= k < cur.len() implies {
                let id = #[trigger] cur[k];
                &&& (id.index as int) < n
                &&& tg_due(w, delta_ms, id.index as int)
                &&& id == slot_id(w, id.index as int)
            } by {
                if k < prev.len() {
                    assert(cur[k] == prev[k]);
                } else {
                    assert(cur[k] == slot_id(w, n - 1));
                }
            }
            assert forall|k1: int, k2: int| 0 <= k1 < k2 < cur.len() implies (
            #[trigger] cur[k1]).index < (#[trigger] cur[k2]).index by {
                if k2 < prev.len() {
                    assert(cur[k1] == prev[k1] && cur[k2] == prev[k2]);
                } else {
                    assert(cur[k2] == slot_id(w, n - 1));
                    assert(cur[k1] == prev[k1]);
                    assert((prev[k1].index as int) < n - 1);
                }
            }
        } else {
            assert(cur == prev);
        }
    }
}

/// Every due target's id is collected.
proof fn lemma_due_ids_complete(w: EntityWorld, delta_ms: u32, n: int, j: int)
    requires
        w.wf(),
        0 <= j < n <= w.slots@.len(),
        tg_due(w, delta_ms, j),
    ensures
        exists|k: int|
            0 <= k < due_ids(w, delta_ms, n).len() && #[trigger] due_ids(w, delta_ms, n)[k]
                == slot_id(w, j),
    decreases n,
{
    if j == n - 1 {
        assert(due_ids(w, delta_ms, n)[due_ids(w, delta_ms, n).len() - 1] == slot_id(w, j));
    } else {
        lemma_due_ids_complete(w, delta_ms, n - 1, j);
        let k = choose|k: int|
            0 <= k < due_ids(w, delta_ms, n - 1).len() && #[trigger] due_ids(w, delta_ms, n - 1)[k]
                == slot_id(w, j);
        assert(due_ids(w, delta_ms, n)[k] == slot_id(w, j));
    }
}

/// The classic mode's whole state: its entity store and physics
/// side-table, the round timers, the score, and the respawn cadence.
pub struct ClassicGameScene {
    pub world: EntityWorld,
    pub physics: GamePhysics,
    pub player_rigid_body_handle: BodyHandle,
    pub game_timer: Timer,
    pub delta_shoot_time: Stopwatch,
    pub shoot_timer: Timer,
    pub game_start_timer: Timer,
    pub score: Score,
    pub game_running: bool,
    pub rng: SmallRng,
    pub target_spawn_state: TargetSpawnState,
    pub secondary_delete_duration: Timer,
    pub entity_to_remove: Vec<EntityId>,
}

/// The ground slab of the range: static world geometry owned by no
/// entity.
pub open spec fn spec_ground_collider() -> ColliderRec {
    ColliderRec {
        owner: None,
        shape: ColliderShape::Cuboid(Vec3 { x: 999999, y: 100, z: 999999 }),
        position: (Vec3 { x: 0i32, y: 50i32, z: 0i32 }),
        parent: None,
    }
}

/// The player's body as the round opens.
pub open spec fn spec_player_body() -> BodyRec {
    BodyRec {
        position: (Vec3 { x: 0i32, y: 1500i32, z: 0i32 }),
        linvel: (Vec3 { x: 0i32, y: 0i32, z: 0i32 }),
    }
}

/// The player's capsule: world geometry to the hit-scan, riding the
/// player's body.
pub open spec fn spec_player_collider(body: BodyHandle) -> ColliderRec {
    ColliderRec {
        owner: None,
        shape: ColliderShape::Capsule { half_height: 750, radius: 300 },
        position: (Vec3 { x: 0i32, y: 1500i32, z: 0i32 }),
        parent: Some(body),
    }
}

/// The checkerboard backdrop the scene's setup puts into the static list.
pub open spec fn spec_backdrop_record() -> (RenderQueueData, ObjectBound) {
    (
        RenderQueueData {
            position: (Vec3 { x: 0i32, y: 0i32, z: -20000i32 }),
            shape_data1: (Vec4 { x: 20000i32, y: 12000i32, z: 1000i32, w: 0i32 }),
            shape_type_material_ids: (ShapeMaterials {
                shape: ShapeType::Cuboid,
                material_0: MaterialType::Checker,
                material_1: MaterialType::Red,
                material_2: MaterialType::Red,
            }),
            ..RenderQueueData::spec_new_none()
        },
        ObjectBound::Sphere(20000),
    )
}

impl ClassicGameScene {
    /// The scene's stores agree on their cross-references.
    pub open spec fn wf(self) -> bool {
        coupled(self.world, self.physics)
    }

    /// The scene as `init` leaves it: the start countdown rewound, the
    /// round not yet running, everything else untouched.
    pub open spec fn spec_inited(self) -> Self {
        ClassicGameScene {
            game_start_timer: (Timer { remaining_ms: START_COUNTDOWN_MS }),
            game_running: false,
            ..self
        }
    }

    /// Room for the (at most two) entities one frame can spawn.
    pub open spec fn room(self) -> bool {
        &&& self.world.slots@.len() + 2 < u32::MAX as int
        &&& self.physics.colliders@.len() + 2 < u32::MAX as int
        &&& self.physics.bodies@.len() + 2 < u32::MAX as int
    }

    /// Build the round: ground and player geometry, and the first primary
    /// target hanging at its fixed spot.
    pub fn new() -> (s: ClassicGameScene)
        ensures
            s.wf(),
            s.room(),
            s.game_timer.remaining_ms == GAME_DURATION_MS,
            s.game_start_timer.remaining_ms == 0,
            s.shoot_timer.remaining_ms == 0,
            s.delta_shoot_time.elapsed_ms == 0,
            s.score.hit == 0 && s.score.miss == 0 && s.score.score == 0
                && s.score.total_shoot_time == 0,
            !s.game_running,
            s.target_spawn_state is Primary,
            s.secondary_delete_duration.remaining_ms == SECONDARY_LIFETIME_MS,
            s.entity_to_remove@.len() == 0,
            exists|id: EntityId|
                {
                    let b = s.world.spec_get(id).unwrap();
                    &&& #[trigger] s.world.spec_live(id)
                    &&& b.kind == EntityKind::Target(Target { shot: false, lifetime: None })
                    &&& b.collider is Some
                    &&& b.body is None
                    &&& s.physics.spec_collider(b.collider.unwrap()) == Some(
                        ColliderRec {
                            owner: Some(id),
                            shape: ColliderShape::Ball(TARGET_RADIUS_MM),
                            position: (Vec3 { x: 0i32, y: 3000i32, z: -10000i32 }),
                            parent: None,
                        },
                    )
                },
            forall|id1: EntityId, id2: EntityId|
                #[trigger] s.world.spec_live(id1) && #[trigger] s.world.spec_live(id2) ==> id1
                    == id2,
            s.physics.colliders@.len() == 3,
            s.physics.bodies@.len() == 1,
            s.physics.spec_body(s.player_rigid_body_handle) == Some(spec_player_body()),
            exists|hg: ColliderHandle| #[trigger] s.physics.spec_collider(hg) == Some(
                spec_ground_collider(),
            ),
            exists|hp: ColliderHandle| #[trigger] s.physics.spec_collider(hp) == Some(
                spec_player_collider(s.player_rigid_body_handle),
            ),
    {
        let mut world = EntityWorld::new();
        let mut physics = GamePhysics::new();
        // Ground: static world geometry, owned by no entity.
        let ground = physics.insert_collider(
            ColliderRec {
                owner: None,
                shape: ColliderShape::Cuboid(Vec3 { x: 999999, y: 100, z: 999999 }),
                position: Vec3 { x: 0, y: 50, z: 0 },
                parent: None,
            },
        );
        // Player: a body the rim steers; its collider is world geometry to
        // the hit-scan.
        let player_rigid_body_handle = physics.insert_body(
            BodyRec {
                position: Vec3 { x: 0, y: 1500, z: 0 },
                linvel: Vec3 { x: 0, y: 0, z: 0 },
            },
        );
        let player_collider = physics.insert_collider(
            ColliderRec {
                owner: None,
                shape: ColliderShape::Capsule { half_height: 750, radius: 300 },
                position: Vec3 { x: 0, y: 1500, z: 0 },
                parent: Some(player_rigid_body_handle),
            },
        );
        proof {
            assert forall|id: EntityId| !(#[trigger] world.spec_live(id)) by {}
            assert forall|h: ColliderHandle| !(#[trigger] physics.spec_owner_of(h) is Some) by {
                assert(physics.spec_collider(h) is Some ==> physics.spec_collider(
                    h,
                ).unwrap().owner is None);
            }
        }
        let ghost w_empty = world;
        let first_target = Target::new();
        let (tid, _tch) = spawn_target(
            &mut world,
            &mut physics,
            Vec3 { x: 0, y: 3000, z: -10000 },
            first_target,
        );
        proof {
            assert(first_target == (Target { shot: false, lifetime: None }));
            assert(world.spec_live(tid));
            assert(world.spec_get(tid).unwrap().kind == EntityKind::Target(
                Target { shot: false, lifetime: None },
            ));
        }
        let s = ClassicGameScene {
            world,
            physics,
            player_rigid_body_handle,
            game_timer: Timer::new(GAME_DURATION_MS),
            delta_shoot_time: Stopwatch::new(),
            shoot_timer: Timer::new_finished(),
            game_start_timer: Timer::new_finished(),
            score: Score::new(),
            game_running: false,
            rng: rng_from_entropy(),
            target_spawn_state: TargetSpawnState::Primary,
            secondary_delete_duration: Timer::new(SECONDARY_LIFETIME_MS),
            entity_to_remove: Vec::new(),
        };
        proof {
            assert(s.world.spec_live(tid));
            assert(s.world.spec_get(tid).unwrap().kind == EntityKind::Target(
                Target { shot: false, lifetime: None },
            ));
            assert forall|id1: EntityId, id2: EntityId|
                #[trigger] s.world.spec_live(id1) && #[trigger] s.world.spec_live(
                    id2,
                ) implies id1 == id2 by {
                if id1 != tid {
                    assert(!w_empty.spec_live(id1));
                    assert(false);
                }
                if id2 != tid {
                    assert(!w_empty.spec_live(id2));
                    assert(false);
                }
            }
            assert(s.physics.spec_collider(ground) == Some(spec_ground_collider()));
            assert(s.physics.spec_collider(player_collider) == Some(
                spec_player_collider(player_rigid_body_handle),
            ));
            assert(s.physics.spec_body(player_rigid_body_handle) == Some(spec_player_body()));
        }
        s
    }

    /// Scene setup: the checkerboard backdrop goes into the static list,
    /// and the start countdown begins; implements `spec_inited` exactly.
    pub fn init(&mut self, queue: &mut RenderObjects)
        ensures
            *final(self) == old(self).spec_inited(),
            final(queue).render_objects@ == old(queue).render_objects@,
            final(queue).render_objects_static@ == old(queue).render_objects_static@.push(
                spec_backdrop_record(),
            ),
    {
        let rec = RenderQueueData {
            position: Vec3 { x: 0, y: 0, z: -20000 },
            shape_data1: Vec4 { x: 20000, y: 12000, z: 1000, w: 0 },
            shape_type_material_ids: ShapeMaterials {
                shape: ShapeType::Cuboid,
                material_0: MaterialType::Checker,
                material_1: MaterialType::Red,
                material_2: MaterialType::Red,
            },
            ..RenderQueueData::new_none()
        };
        let r = queue.next_static();
        *r = (rec, ObjectBound::Sphere(20000));
        proof {
            assert(queue.render_objects_static@ =~= old(queue).render_objects_static@.push(
                (rec, ObjectBound::Sphere(20000)),
            ));
        }
        self.game_start_timer.reset(START_COUNTDOWN_MS);
        self.game_running = false;
    }

    /// Open the frame: before the round runs, the start countdown ticks
    /// and flips `game_running` when it has finished; during the round,
    /// the round clock, the weapon cooldown and the reaction stopwatch
    /// advance. Returns the round clock as it stood when the frame began.
    pub fn advance_frame(&mut self, delta_ms: u32) -> (timer_at_start: u32)
        ensures
            timer_at_start == old(self).game_timer.remaining_ms,
            final(self).world == old(self).world,
            final(self).physics == old(self).physics,
            final(self).score == old(self).score,
            final(self).target_spawn_state == old(self).target_spawn_state,
            final(self).entity_to_remove == old(self).entity_to_remove,
            if !old(self).game_running {
                &&& final(self).game_timer == old(self).game_timer
                &&& final(self).shoot_timer == old(self).shoot_timer
                &&& final(self).delta_shoot_time == old(self).delta_shoot_time
                &&& if old(self).game_start_timer.remaining_ms == 0 {
                    &&& final(self).game_running
                    &&& final(self).game_start_timer == old(self).game_start_timer
                } else {
                    &&& !final(self).game_running
                    &&& final(self).game_start_timer == old(self).game_start_timer.spec_updated(
                        delta_ms,
                    )
                }
            } else {
                &&& final(self).game_running
                &&& final(self).game_start_timer == old(self).game_start_timer
                &&& final(self).game_timer == old(self).game_timer.spec_updated(delta_ms)
                &&& final(self).shoot_timer == old(self).shoot_timer.spec_updated(delta_ms)
                &&& final(self).delta_shoot_time.elapsed_ms == if old(self).delta_shoot_time.elapsed_ms + delta_ms <= u64::MAX {
                    old(self).delta_shoot_time.elapsed_ms + delta_ms
                } else {
                    u64::MAX as int
                }
            },
    {
        let timer_at_start = self.game_timer.get_duration();
        if !self.game_running {
            if self.game_start_timer.is_finished() {
                self.game_running = true;
            } else {
                self.game_start_timer.update(delta_ms);
            }
        } else {
            self.game_timer.update(delta_ms);
            self.shoot_timer.update(delta_ms);
            self.delta_shoot_time.update(delta_ms);
        }
        timer_at_start
    }

    /// The fire decision of the frame: a shot goes out exactly when the
    /// round is running, the trigger is pressed, and the weapon cooldown
    /// has run out; firing restarts the cooldown.
    pub fn decide_fire(&mut self, input: &FrameInput) -> (fire: bool)
        ensures
            fire == (old(self).game_running && input.left_mouse_pressed && old(self).shoot_timer.remaining_ms == 0),
            final(self).shoot_timer.remaining_ms == if fire {
                SHOOT_COOLDOWN_MS as int
            } else {
                old(self).shoot_timer.remaining_ms as int
            },
            final(self).world == old(self).world,
            final(self).physics == old(self).physics,
            final(self).score == old(self).score,
            final(self).game_timer == old(self).game_timer,
            final(self).game_start_timer == old(self).game_start_timer,
            final(self).delta_shoot_time == old(self).delta_shoot_time,
            final(self).game_running == old(self).game_running,
            final(self).target_spawn_state == old(self).target_spawn_state,
    {
        let fire = self.game_running && input.left_mouse_pressed && self.shoot_timer.is_finished();
        if fire {
            self.shoot_timer.reset(SHOOT_COOLDOWN_MS);
        }
        fire
    }

    /// Close the frame: pausing wins over everything; otherwise, a round
    /// clock that had already run out when the frame began pushes the
    /// score display, carrying the round's result.
    pub fn check_transition(&self, timer_at_start_ms: u32, input: &FrameInput) -> (op: SceneOp)
        ensures
            input.escape_pressed ==> match op {
                SceneOp::Push(sc, msg) => {
                    &&& *sc == Scene::Pause(PauseScene { difficulty: None })
                    &&& msg is None
                },
                _ => false,
            },
            !input.escape_pressed && timer_at_start_ms == 0 ==> match op {
                SceneOp::Push(sc, msg) => {
                    &&& *sc == Scene::Score(
                        HitAndDodgeScoreScene {
                            score: (HitAndDodgeGameScoreDisplay {
                                accuracy: 0u32,
                                hit: 0u16,
                                miss: 0u16,
                                score: 0i32,
                                avg_hit_time: 0i64,
                                created_at: 0i64,
                            }),
                        },
                    )
                    &&& msg is Some
                    &&& msg.unwrap().wf()
                    &&& msg.unwrap().spec_get("hit"@) == Some(
                        MessageValue::I32(self.score.hit as i32),
                    )
                    &&& msg.unwrap().spec_get("score"@) == Some(
                        MessageValue::I32(self.score.score),
                    )
                    &&& msg.unwrap().spec_get("miss"@) == Some(
                        MessageValue::I32(self.score.miss as i32),
                    )
                    &&& msg.unwrap().spec_get("avg_hit_time"@) == Some(
                        MessageValue::I64(
                            (self.score.total_shoot_time as int / (if self.score.hit == 0 {
                                1int
                            } else {
                                self.score.hit as int
                            })) as i64,
                        ),
                    )
                },
                _ => false,
            },
            !input.escape_pressed && timer_at_start_ms != 0 ==> op is NoOp,
    {
        if input.escape_pressed {
            SceneOp::Push(Box::new(Scene::Pause(PauseScene::new(None))), None)
        } else if timer_at_start_ms == 0 {
            let mut msg = Message::new();
            self.score.write_message(&mut msg);
            SceneOp::Push(Box::new(Scene::Score(HitAndDodgeScoreScene::new())), Some(msg))
        } else {
            SceneOp::NoOp
        }
    }

    /// The removal sweep (run only while the round is running): every
    /// target's lifetime countdown advances, targets whose countdown has
    /// run out are torn down — bundle and collider together, after the
    /// walk — and the sweep reports whether an unshot target expired, so
    /// the round can charge the miss and respawn.
    pub fn sweep_targets(&mut self, delta_ms: u32) -> (missed_secondary: bool)
        requires
            old(self).wf(),
        ensures
            final(self).wf(),
            final(self).score == old(self).score,
            final(self).game_timer == old(self).game_timer,
            final(self).game_start_timer == old(self).game_start_timer,
            final(self).shoot_timer == old(self).shoot_timer,
            final(self).delta_shoot_time == old(self).delta_shoot_time,
            final(self).game_running == old(self).game_running,
            final(self).target_spawn_state == old(self).target_spawn_state,
            final(self).secondary_delete_duration == old(self).secondary_delete_duration,
            final(self).entity_to_remove@.len() == 0,
            final(self).world.slots@.len() == old(self).world.slots@.len(),
            final(self).physics.colliders@.len() == old(self).physics.colliders@.len(),
            final(self).physics.bodies@ == old(self).physics.bodies@,
            missed_secondary == exists|i: int|
                0 <= i < old(self).world.slots@.len() && #[trigger] tg_due(
                    old(self).world,
                    delta_ms,
                    i,
                ) && !tg_comp(old(self).world, i).shot,
            forall|id: EntityId|
                #[trigger] old(self).world.spec_live(id) && old(self).world.spec_get(
                    id,
                ).unwrap().kind is Target ==> {
                    let b = old(self).world.spec_get(id).unwrap();
                    let t = b.kind->Target_0;
                    if t.spec_due(delta_ms) {
                        &&& !final(self).world.spec_live(id)
                        &&& final(self).world.spec_spent(id)
                        &&& (b.collider is Some ==> final(self).physics.spec_collider(
                            b.collider.unwrap(),
                        ) is None)
                    } else {
                        final(self).world.spec_get(id) == Some(
                            ComponentBundle {
                                kind: EntityKind::Target(t.spec_advanced(delta_ms)),
                                collider: b.collider,
                                body: b.body,
                            },
                        )
                    }
                },
            forall|id: EntityId|
                #[trigger] old(self).world.spec_live(id) && !(old(self).world.spec_get(
                    id,
                ).unwrap().kind is Target) ==> final(self).world.spec_get(id) == old(self).world.spec_get(id) && final(self).world.spec_live(id),
            forall|id: EntityId|
                old(self).world.spec_spent(id) ==> final(self).world.spec_spent(id),
            forall|h: ColliderHandle|
                #[trigger] old(self).physics.spec_collider(h) is Some ==> {
                    let ow = old(self).physics.spec_collider(h).unwrap().owner;
                    if ow is Some && old(self).world.spec_live(ow.unwrap()) && old(self).world.spec_get(ow.unwrap()).unwrap().kind is Target && old(self).world.spec_get(ow.unwrap()).unwrap().kind->Target_0.spec_due(delta_ms) {
                        final(self).physics.spec_collider(h) is None
                    } else {
                        final(self).physics.spec_collider(h) == old(self).physics.spec_collider(h)
                    }
                },
    {
        let ghost w0 = self.world;
        let ghost p0 = self.physics;
        let n = self.world.slot_count();
        let mut missed: bool = false;
        self.entity_to_remove.clear();
        let mut i: usize = 0;
        while i < n
            invariant
                coupled(w0, p0),
                self.world.wf(),
                n == w0.slots@.len(),
                i <= n,
                self.world.slots@.len() == n,
                self.world.generations@ == w0.generations@,
                self.physics == p0,
                self.score == old(self).score,
                self.game_timer == old(self).game_timer,
                self.game_start_timer == old(self).game_start_timer,
                self.shoot_timer == old(self).shoot_timer,
                self.delta_shoot_time == old(self).delta_shoot_time,
                self.game_running == old(self).game_running,
                self.target_spawn_state == old(self).target_spawn_state,
                self.secondary_delete_duration == old(self).secondary_delete_duration,
                self.player_rigid_body_handle == old(self).player_rigid_body_handle,
                self.entity_to_remove@ == due_ids(w0, delta_ms, i as int),
                missed == exists|j: int|
                    0 <= j < i && #[trigger] tg_due(w0, delta_ms, j) && !tg_comp(w0, j).shot,
                forall|j: int| i <= j < n ==> self.world.slots@[j] == #[trigger] w0.slots@[j],
                forall|j: int|
                    0 <= j < i && #[trigger] tg_at(w0, j) ==> self.world.slots@[j] == Some(
                        ComponentBundle {
                            kind: EntityKind::Target(tg_comp(w0, j).spec_advanced(delta_ms)),
                            collider: w0.slots@[j].unwrap().collider,
                            body: w0.slots@[j].unwrap().body,
                        },
                    ),
                forall|j: int|
                    0 <= j < i && !(#[trigger] tg_at(w0, j)) ==> self.world.slots@[j]
                        == w0.slots@[j],
            decreases n - i,
        {
            let process = match &self.world.slots[i] {
                Some(b) => matches!(b.kind, EntityKind::Target(_)) && b.collider.is_some(),
                None => false,
            };
            if process {
                proof {
                    assert(self.world.slots@[i as int] == w0.slots@[i as int]);
                    assert(tg_at(w0, i as int));
                }
                let b = match &self.world.slots[i] {
                    Some(bb) => *bb,
                    None => {
                        proof {
                            assert(false);
                        }
                        ComponentBundle { kind: EntityKind::Wall, collider: None, body: None }
                    },
                };
                let mut t = match b.kind {
                    EntityKind::Target(t0) => t0,
                    _ => {
                        proof {
                            assert(false);
                        }
                        Target::new()
                    },
                };
                let due = t.is_need_to_be_deleted(delta_ms);
                let id = self.world.id_at(i);
                match self.world.set(
                    id,
                    ComponentBundle {
                        kind: EntityKind::Target(t),
                        collider: b.collider,
                        body: b.body,
                    },
                ) {
                    Ok(()) => {},
                    Err(_) => {
                        proof {
                            assert(false);
                        }
                    },
                }
                if due {
                    self.entity_to_remove.push(id);
                    if !t.is_shooted() {
                        missed = true;
                    }
                    proof {
                        assert(tg_due(w0, delta_ms, i as int));
                        assert(id == slot_id(w0, i as int));
                        assert(self.entity_to_remove@ =~= due_ids(w0, delta_ms, i + 1 as int));
                    }
                } else {
                    proof {
                        assert(!tg_due(w0, delta_ms, i as int));
                        assert(self.entity_to_remove@ =~= due_ids(w0, delta_ms, i + 1 as int));
                    }
                }
            } else {
                proof {
                    assert(self.world.slots@[i as int] == w0.slots@[i as int]);
                    assert(!tg_at(w0, i as int)) by {
                        if tg_at(w0, i as int) {
                            assert(self.world.slots@[i as int] is Some);
                        }
                    }
                    assert(!tg_due(w0, delta_ms, i as int));
                    assert(self.entity_to_remove@ =~= due_ids(w0, delta_ms, i + 1 as int));
                }
            }
            i = i + 1;
        }
        let ghost w1 = self.world;
        proof {
            lemma_due_ids_sound(w0, delta_ms, n as int);
            let w2 = self.world;
            let p2 = self.physics;
            assert forall|o: EntityId| #[trigger] w2.spec_live(o) implies w0.spec_live(o)
                && w2.spec_get(o).unwrap().collider == w0.spec_get(o).unwrap().collider
                && w2.spec_get(o).unwrap().body == w0.spec_get(o).unwrap().body by {
                let j = o.index as int;
                if tg_at(w0, j) {
                    assert(w0.slots@[j] is Some);
                } else {
                    assert(w2.slots@[j] == w0.slots@[j]);
                }
            }
            assert forall|o: EntityId| #[trigger] w0.spec_live(o) implies w2.spec_live(o) by {
                let j = o.index as int;
                if tg_at(w0, j) {
                } else {
                    assert(w2.slots@[j] == w0.slots@[j]);
                }
            }
            assert forall|o: EntityId| #[trigger] w2.spec_live(o) implies backref_ok(
                w2,
                p2,
                o,
            ) by {
                assert(w0.spec_live(o));
                assert(backref_ok(w0, p0, o));
                let j = o.index as int;
                if tg_at(w0, j) {
                } else {
                    assert(w2.slots@[j] == w0.slots@[j]);
                }
            }
            assert forall|h: ColliderHandle| #[trigger] p2.spec_owner_of(h) is Some implies {
                let o = p2.spec_owner_of(h).unwrap();
                &&& w2.spec_live(o)
                &&& w2.spec_get(o).unwrap().collider == Some(h)
            } by {
                let o = p0.spec_owner_of(h).unwrap();
                assert(w0.spec_live(o));
            }
            assert forall|id1: EntityId, id2: EntityId|
                #[trigger] w2.spec_live(id1) && #[trigger] w2.spec_live(id2) && id1
                    != id2 implies !(w2.spec_get(id1).unwrap().body is Some && w2.spec_get(
                id1,
            ).unwrap().body == w2.spec_get(id2).unwrap().body) by {
                assert(w0.spec_live(id1));
                assert(w0.spec_live(id2));
            }
        }
        proof {
            assert forall|k: int| 0 <= k < self.entity_to_remove@.len() implies {
                let id = #[trigger] self.entity_to_remove@[k];
                &&& w1.spec_live(id)
                &&& w1.spec_get(id).unwrap().collider == w0.slots@[
                    id.index as int
                ].unwrap().collider
                &&& w1.spec_get(id).unwrap().kind is Target
                &&& w1.spec_get(id).unwrap().body is None
            } by {
                let id = self.entity_to_remove@[k];
                let j = id.index as int;
                assert(tg_due(w0, delta_ms, j));
                assert(id == slot_id(w0, j));
                assert(w0.spec_live(id));
                assert(backref_ok(w0, p0, id));
                assert(w0.spec_get(id) == w0.slots@[j]);
                assert(w1.slots@[j] == Some(
                    ComponentBundle {
                        kind: EntityKind::Target(tg_comp(w0, j).spec_advanced(delta_ms)),
                        collider: w0.slots@[j].unwrap().collider,
                        body: w0.slots@[j].unwrap().body,
                    },
                ));
                assert(w1.spec_live(id));
                assert(w1.spec_get(id) == w1.slots@[j]);
            }
        }
        let nrem = self.entity_to_remove.len();
        let mut m: usize = 0;
        while m < nrem
            invariant
                coupled(self.world, self.physics),
                nrem == self.entity_to_remove@.len(),
                m <= nrem,
                self.entity_to_remove@ == due_ids(w0, delta_ms, n as int),
                self.score == old(self).score,
                self.game_timer == old(self).game_timer,
                self.game_start_timer == old(self).game_start_timer,
                self.shoot_timer == old(self).shoot_timer,
                self.delta_shoot_time == old(self).delta_shoot_time,
                self.game_running == old(self).game_running,
                self.target_spawn_state == old(self).target_spawn_state,
                self.secondary_delete_duration == old(self).secondary_delete_duration,
                self.player_rigid_body_handle == old(self).player_rigid_body_handle,
                w1.wf(),
                n == w0.slots@.len(),
                w1.slots@.len() == n,
                self.world.slots@.len() == n,
                self.physics.colliders@.len() == p0.colliders@.len(),
                self.physics.bodies@ == p0.bodies@,
                forall|k: int|
                    0 <= k < nrem ==> {
                        let id = #[trigger] self.entity_to_remove@[k];
                        &&& (id.index as int) < n
                        &&& tg_due(w0, delta_ms, id.index as int)
                        &&& id == slot_id(w0, id.index as int)
                        &&& w1.spec_live(id)
                        &&& w1.spec_get(id).unwrap().collider == w0.slots@[
                            id.index as int
                        ].unwrap().collider
                        &&& w1.spec_get(id).unwrap().kind is Target
                        &&& w1.spec_get(id).unwrap().body is None
                    },
                forall|k1: int, k2: int|
                    0 <= k1 < k2 < nrem ==> (#[trigger] self.entity_to_remove@[k1]).index < (
                    #[trigger] self.entity_to_remove@[k2]).index,
                forall|k: int|
                    m <= k < nrem ==> self.world.spec_live(#[trigger] self.entity_to_remove@[k])
                        && self.world.spec_get(self.entity_to_remove@[k]) == w1.spec_get(
                        self.entity_to_remove@[k],
                    ),
                forall|k: int|
                    0 <= k < m ==> {
                        let id = #[trigger] self.entity_to_remove@[k];
                        &&& !self.world.spec_live(id)
                        &&& self.world.spec_spent(id)
                        &&& (w1.spec_get(id).unwrap().collider is Some
                            ==> self.physics.spec_collider(
                            w1.spec_get(id).unwrap().collider.unwrap(),
                        ) is None)
                    },
                forall|o: EntityId|
                    #[trigger] w1.spec_live(o) && !tg_due(w0, delta_ms, o.index as int)
                        ==> self.world.spec_get(o) == w1.spec_get(o) && self.world.spec_live(o),
                forall|o: EntityId| w1.spec_spent(o) ==> #[trigger] self.world.spec_spent(o),
                forall|o: EntityId| #[trigger] self.world.spec_live(o) ==> w1.spec_live(o),
                forall|h: ColliderHandle|
                    #[trigger] p0.spec_collider(h) is Some && (p0.spec_collider(h).unwrap().owner
                        is Some ==> !tg_due(
                        w0,
                        delta_ms,
                        p0.spec_collider(h).unwrap().owner.unwrap().index as int,
                    )) ==> self.physics.spec_collider(h) == p0.spec_collider(h),
            decreases nrem - m,
        {
            let id = self.entity_to_remove[m];
            let ghost wb = self.world;
            let ghost pb = self.physics;
            proof {
                assert(wb.spec_live(id));
                assert(wb.spec_get(id) == w1.spec_get(id));
                assert(wb.spec_get(id).unwrap().body is None);
            }
            match despawn_entity(&mut self.world, &mut self.physics, id) {
                Ok(_) => {},
                Err(_) => {
                    proof {
                        assert(false);
                    }
                },
            }
            proof {
                assert forall|k: int| 0 <= k < m + 1 implies {
                    let rid = #[trigger] self.entity_to_remove@[k];
                    &&& !self.world.spec_live(rid)
                    &&& self.world.spec_spent(rid)
                    &&& (w1.spec_get(rid).unwrap().collider is Some
                        ==> self.physics.spec_collider(
                        w1.spec_get(rid).unwrap().collider.unwrap(),
                    ) is None)
                } by {
                    let rid = self.entity_to_remove@[k];
                    if k < m {
                        assert(rid != id);
                        if w1.spec_get(rid).unwrap().collider is Some {
                            let hc = w1.spec_get(rid).unwrap().collider.unwrap();
                            assert(pb.spec_collider(hc) is None);
                            if self.physics.spec_collider(hc) is Some {
                                assert(false);
                            }
                        }
                    } else {
                        assert(rid == id);
                        assert(wb.spec_get(id) == w1.spec_get(id));
                    }
                }
                assert forall|k: int| m + 1 <= k < nrem implies self.world.spec_live(
                    #[trigger] self.entity_to_remove@[k],
                ) && self.world.spec_get(self.entity_to_remove@[k]) == w1.spec_get(
                    self.entity_to_remove@[k],
                ) by {
                    let rid = self.entity_to_remove@[k];
                    assert(rid.index != id.index);
                    assert(rid != id);
                    assert(wb.spec_live(rid));
                    assert(wb.spec_get(rid) == w1.spec_get(rid));
                }
                assert forall|h: ColliderHandle|
                    #[trigger] p0.spec_collider(h) is Some && (p0.spec_collider(h).unwrap().owner
                        is Some ==> !tg_due(
                        w0,
                        delta_ms,
                        p0.spec_collider(h).unwrap().owner.unwrap().index as int,
                    )) implies self.physics.spec_collider(h) == p0.spec_collider(h) by {
                    assert(pb.spec_collider(h) == p0.spec_collider(h));
                    let bw = wb.spec_get(id);
                    if bw.unwrap().collider == Some(h) {
                        assert(w1.spec_get(id).unwrap().collider == Some(h));
                        assert(pb.spec_owner_of(h) is Some);
                        let ow = pb.spec_owner_of(h).unwrap();
                        assert(ow == id);
                        assert(tg_due(w0, delta_ms, id.index as int));
                        assert(p0.spec_collider(h).unwrap().owner == pb.spec_collider(
                            h,
                        ).unwrap().owner);
                        assert(false);
                    }
                }
            }
            m = m + 1;
        }
        self.entity_to_remove.clear();
        proof {
            let w2 = self.world;
            let p2 = self.physics;
            assert forall|id: EntityId|
                #[trigger] w0.spec_live(id) && w0.spec_get(id).unwrap().kind is Target implies {
                let b = w0.spec_get(id).unwrap();
                let t = b.kind->Target_0;
                if t.spec_due(delta_ms) {
                    &&& !w2.spec_live(id)
                    &&& w2.spec_spent(id)
                    &&& (b.collider is Some ==> p2.spec_collider(b.collider.unwrap()) is None)
                } else {
                    w2.spec_get(id) == Some(
                        ComponentBundle {
                            kind: EntityKind::Target(t.spec_advanced(delta_ms)),
                            collider: b.collider,
                            body: b.body,
                        },
                    )
                }
            } by {
                let j = id.index as int;
                assert(tg_at(w0, j));
                assert(w0.spec_get(id) == w0.slots@[j]);
                let t = w0.slots@[j].unwrap().kind->Target_0;
                if t.spec_due(delta_ms) {
                    assert(tg_due(w0, delta_ms, j));
                    lemma_due_ids_complete(w0, delta_ms, n as int, j);
                    let k = choose|k: int|
                        0 <= k < due_ids(w0, delta_ms, n as int).len() && #[trigger] due_ids(
                            w0,
                            delta_ms,
                            n as int,
                        )[k] == slot_id(w0, j);
                    assert(self.entity_to_remove@ == Seq::<EntityId>::empty());
                    assert(due_ids(w0, delta_ms, n as int)[k] == id);
                } else {
                    assert(!tg_due(w0, delta_ms, j));
                    assert(w1.spec_live(id));
                    assert(w1.spec_get(id) == w1.slots@[j]);
                }
            }
            assert forall|id: EntityId|
                #[trigger] w0.spec_live(id) && !(w0.spec_get(id).unwrap().kind
                    is Target) implies w2.spec_get(id) == w0.spec_get(id) && w2.spec_live(id) by {
                let j = id.index as int;
                assert(!tg_at(w0, j)) by {
                    if tg_at(w0, j) {
                        assert(w0.spec_get(id) == w0.slots@[j]);
                    }
                }
                assert(w1.slots@[j] == w0.slots@[j]);
                assert(w1.spec_live(id));
                assert(!tg_due(w0, delta_ms, j));
                assert(w1.spec_get(id) == w1.slots@[j]);
            }
            assert forall|h: ColliderHandle|
                #[trigger] p0.spec_collider(h) is Some implies {
                let ow = p0.spec_collider(h).unwrap().owner;
                if ow is Some && w0.spec_live(ow.unwrap()) && w0.spec_get(ow.unwrap()).unwrap().kind
                    is Target && w0.spec_get(ow.unwrap()).unwrap().kind->Target_0.spec_due(
                    delta_ms,
                ) {
                    p2.spec_collider(h) is None
                } else {
                    p2.spec_collider(h) == p0.spec_collider(h)
                }
            } by {
                let ow = p0.spec_collider(h).unwrap().owner;
                if ow is Some && w0.spec_live(ow.unwrap()) && w0.spec_get(ow.unwrap()).unwrap().kind
                    is Target && w0.spec_get(ow.unwrap()).unwrap().kind->Target_0.spec_due(
                    delta_ms,
                ) {
                    let id = ow.unwrap();
                    assert(p0.spec_owner_of(h) == Some(id));
                    assert(w0.spec_get(id).unwrap().collider == Some(h));
                    assert(!w2.spec_live(id));
                } else {
                    if ow is Some {
                        assert(p0.spec_owner_of(h) is Some);
                        let id = ow.unwrap();
                        assert(w0.spec_live(id));
                        assert(!tg_due(w0, delta_ms, id.index as int)) by {
                            if tg_due(w0, delta_ms, id.index as int) {
                                assert(w0.spec_get(id) == w0.slots@[id.index as int]);
                            }
                        }
                    }
                }
            }
            assert forall|j: int|
                0 <= j < n && #[trigger] tg_due(w0, delta_ms, j) && !tg_comp(w0, j).shot implies
                    exists|id: EntityId|
                    #[trigger] w0.spec_live(id) && w0.spec_get(id).unwrap().kind is Target
                        && w0.spec_get(id).unwrap().kind->Target_0.spec_due(delta_ms) && !w0.spec_get(
                        id,
                    ).unwrap().kind->Target_0.shot by {
                let id = slot_id(w0, j);
                assert(w0.spec_live(id));
                assert(w0.spec_get(id) == w0.slots@[j]);
            }
        }
        missed
    }

    /// Resolve one shot against the rebuilt ray index's answer. A hit on
    /// an unshot target scores by reaction time, marks the target shot,
    /// and respawns the next target per the cadence; anything else — no
    /// hit, world geometry, a stale handle, an entity with no hittable
    /// component, or an already-shot target — is a miss and costs the
    /// penalty.
    pub fn resolve_shot(&mut self, hit: Option<ColliderHandle>)
        requires
            old(self).wf(),
            old(self).room(),
        ensures
            final(self).wf(),
            final(self).game_timer == old(self).game_timer,
            final(self).game_start_timer == old(self).game_start_timer,
            final(self).shoot_timer == old(self).shoot_timer,
            final(self).game_running == old(self).game_running,
            final(self).secondary_delete_duration == old(self).secondary_delete_duration,
            match shot_hit_target(*old(self), hit) {
                None => {
                    &&& final(self).world == old(self).world
                    &&& final(self).physics == old(self).physics
                    &&& final(self).delta_shoot_time == old(self).delta_shoot_time
                    &&& final(self).target_spawn_state == old(self).target_spawn_state
                    &&& final(self).score.score == clamp32(old(self).score.score - MISS_PENALTY)
                    &&& final(self).score.miss == (if old(self).score.miss < u16::MAX {
                        old(self).score.miss + 1
                    } else {
                        u16::MAX as int
                    })
                    &&& final(self).score.hit == old(self).score.hit
                    &&& final(self).score.total_shoot_time == old(self).score.total_shoot_time
                },
                Some(id) => {
                    let b = old(self).world.spec_get(id).unwrap();
                    let shoot_ms = old(self).delta_shoot_time.elapsed_ms;
                    let toggled = if old(self).target_spawn_state is Primary {
                        TargetSpawnState::Secondary
                    } else {
                        TargetSpawnState::Primary
                    };
                    &&& final(self).delta_shoot_time.elapsed_ms == 0
                    &&& final(self).target_spawn_state == toggled
                    &&& final(self).score.hit == (if old(self).score.hit < u16::MAX {
                        old(self).score.hit + 1
                    } else {
                        u16::MAX as int
                    })
                    &&& final(self).score.miss == old(self).score.miss
                    &&& final(self).score.score == clamp32(
                        old(self).score.score + classic_hit_score(shoot_ms as int),
                    )
                    &&& final(self).score.total_shoot_time == (if old(
                        self,
                    ).score.total_shoot_time + shoot_ms <= u32::MAX {
                        old(self).score.total_shoot_time + shoot_ms
                    } else {
                        u32::MAX as int
                    })
                    &&& final(self).world.spec_get(id) == Some(
                        ComponentBundle {
                            kind: EntityKind::Target(
                                Target { shot: true, lifetime: Some(Timer { remaining_ms: 0u32 }) },
                            ),
                            collider: b.collider,
                            body: b.body,
                        },
                    )
                    &&& forall|h: ColliderHandle|
                        old(self).physics.spec_collider(h) is Some ==> final(self).physics.spec_collider(h) == old(self).physics.spec_collider(h)
                    &&& exists|nid: EntityId|
                        {
                            let nb = final(self).world.spec_get(nid).unwrap();
                            let npos = final(self).physics.spec_collider(
                                nb.collider.unwrap(),
                            ).unwrap().position;
                            &&& !old(self).world.spec_live(nid)
                            &&& #[trigger] final(self).world.spec_live(nid)
                            &&& nb.kind is Target
                            &&& nb.collider is Some
                            &&& final(self).physics.spec_collider(nb.collider.unwrap()) is Some
                            &&& (toggled is Primary ==> {
                                &&& nb.kind->Target_0 == (Target { shot: false, lifetime: None })
                                &&& npos.x == 0 && npos.y == 3000
                                &&& -19000 <= npos.z < -13000
                            })
                            &&& (toggled is Secondary ==> {
                                &&& nb.kind->Target_0 == (Target {
                                    shot: false,
                                    lifetime: Some(old(self).secondary_delete_duration),
                                })
                                &&& -5000 <= npos.x < 5000
                                &&& 500 <= npos.y < 5000
                                &&& -19000 <= npos.z < -13000
                            })
                            &&& forall|o: EntityId|
                                o != id && o != nid ==> final(self).world.spec_get(o) == old(
                                    self,
                                ).world.spec_get(o)
                        }
                },
            },
    {
        let resolved: Option<EntityId> = match hit {
            Some(h) => self.physics.entity_of_collider(h),
            None => None,
        };
        let mut landed: Option<EntityId> = None;
        match resolved {
            Some(id) => {
                let bundle_opt = match self.world.get(id) {
                    Some(b) => Some(*b),
                    None => None,
                };
                match bundle_opt {
                    Some(b) => {
                        match b.kind {
                            EntityKind::Target(t0) => {
                                if !t0.is_shooted() {
                                    let mut t = t0;
                                    t.shooted();
                                    match self.world.set(
                                        id,
                                        ComponentBundle {
                                            kind: EntityKind::Target(t),
                                            collider: b.collider,
                                            body: b.body,
                                        },
                                    ) {
                                        Ok(()) => {},
                                        Err(_) => {
                                            proof {
                                                assert(false);
                                            }
                                        },
                                    }
                                    landed = Some(id);
                                }
                            },
                            _ => {},
                        }
                    },
                    None => {},
                }
            },
            None => {},
        }
        match landed {
            None => {
                proof {
                    assert(shot_hit_target(*old(self), hit) is None);
                }
                self.score.score = add_score(self.score.score, -MISS_PENALTY);
                self.score.miss = inc_u16(self.score.miss);
            },
            Some(id) => {
                proof {
                    assert(shot_hit_target(*old(self), hit) == Some(id));
                    let w0 = old(self).world;
                    let p0 = old(self).physics;
                    let w2 = self.world;
                    assert forall|o: EntityId| #[trigger] w2.spec_live(o) implies backref_ok(
                        w2,
                        self.physics,
                        o,
                    ) by {
                        assert(w0.spec_live(o));
                        assert(backref_ok(w0, p0, o));
                    }
                    assert forall|h: ColliderHandle|
                        #[trigger] self.physics.spec_owner_of(h) is Some implies {
                        let o = self.physics.spec_owner_of(h).unwrap();
                        &&& w2.spec_live(o)
                        &&& w2.spec_get(o).unwrap().collider == Some(h)
                    } by {
                        let o = p0.spec_owner_of(h).unwrap();
                        assert(w0.spec_live(o));
                    }
                    assert forall|id1: EntityId, id2: EntityId|
                        #[trigger] w2.spec_live(id1) && #[trigger] w2.spec_live(id2) && id1
                            != id2 implies !(w2.spec_get(id1).unwrap().body is Some
                        && w2.spec_get(id1).unwrap().body == w2.spec_get(id2).unwrap().body) by {
                        assert(w0.spec_live(id1));
                        assert(w0.spec_live(id2));
                    }
                }
                let shoot_ms = self.delta_shoot_time.get_duration();
                self.delta_shoot_time.reset();
                self.score.total_shoot_time = add_time(self.score.total_shoot_time, shoot_ms);
                let pts = compute_hit_score(shoot_ms);
                self.score.score = add_score(self.score.score, pts);
                self.score.hit = inc_u16(self.score.hit);
                self.target_spawn_state = match self.target_spawn_state {
                    TargetSpawnState::Primary => TargetSpawnState::Secondary,
                    TargetSpawnState::Secondary => TargetSpawnState::Primary,
                };
                match self.target_spawn_state {
                    TargetSpawnState::Primary => {
                        let z = rng_gen_range_i32(&mut self.rng, -19000, -13000);
                        let (nid, _nch) = spawn_target(
                            &mut self.world,
                            &mut self.physics,
                            Vec3 { x: 0, y: 3000, z },
                            Target::new(),
                        );
                        proof {
                            assert(self.world.spec_live(nid));
                        }
                    },
                    TargetSpawnState::Secondary => {
                        let x = rng_gen_range_i32(&mut self.rng, -5000, 5000);
                        let y = rng_gen_range_i32(&mut self.rng, 500, 5000);
                        let z = rng_gen_range_i32(&mut self.rng, -19000, -13000);
                        let (nid, _nch) = spawn_target(
                            &mut self.world,
                            &mut self.physics,
                            Vec3 { x, y, z },
                            Target::new_with_delete_duration(self.secondary_delete_duration),
                        );
                        proof {
                            assert(self.world.spec_live(nid));
                        }
                    },
                }
            },
        }
    }

    /// Charge the miss an expired, unshot secondary target earned, and
    /// respawn the primary target. Reaching this with the cadence already
    /// on the primary target is a broken invariant, and fatal.
    pub fn handle_secondary_miss(&mut self) -> (r: Result<(), FatalError>)
        requires
            old(self).wf(),
            old(self).room(),
        ensures
            final(self).wf(),
            final(self).game_timer == old(self).game_timer,
            final(self).shoot_timer == old(self).shoot_timer,
            final(self).game_start_timer == old(self).game_start_timer,
            final(self).delta_shoot_time == old(self).delta_shoot_time,
            final(self).game_running == old(self).game_running,
            match r {
                Ok(()) => {
                    &&& old(self).target_spawn_state is Secondary
                    &&& final(self).target_spawn_state is Primary
                    &&& final(self).score.score == clamp32(old(self).score.score - MISS_PENALTY)
                    &&& final(self).score.miss == (if old(self).score.miss < u16::MAX {
                        old(self).score.miss + 1
                    } else {
                        u16::MAX as int
                    })
                    &&& final(self).score.hit == old(self).score.hit
                    &&& exists|nid: EntityId|
                        {
                            let nb = final(self).world.spec_get(nid).unwrap();
                            let npos = final(self).physics.spec_collider(
                                nb.collider.unwrap(),
                            ).unwrap().position;
                            &&& !old(self).world.spec_live(nid)
                            &&& #[trigger] final(self).world.spec_live(nid)
                            &&& nb.kind == EntityKind::Target(
                                Target { shot: false, lifetime: None },
                            )
                            &&& npos.x == 0 && npos.y == 3000
                            &&& -19000 <= npos.z < -13000
                            &&& forall|o: EntityId|
                                o != nid ==> final(self).world.spec_get(o) == old(
                                    self,
                                ).world.spec_get(o)
                        }
                },
                Err(e) => {
                    &&& e == FatalError::SpawnStateCorrupt
                    &&& old(self).target_spawn_state is Primary
                    &&& *final(self) == *old(self)
                },
            },
    {
        match self.target_spawn_state {
            TargetSpawnState::Secondary => {
                self.target_spawn_state = TargetSpawnState::Primary;
                self.score.score = add_score(self.score.score, -MISS_PENALTY);
                self.score.miss = inc_u16(self.score.miss);
                let z = rng_gen_range_i32(&mut self.rng, -19000, -13000);
                let (nid, _nch) = spawn_target(
                    &mut self.world,
                    &mut self.physics,
                    Vec3 { x: 0, y: 3000, z },
                    Target::new(),
                );
                proof {
                    assert(self.world.spec_live(nid));
                }
                Ok(())
            },
            TargetSpawnState::Primary => Err(FatalError::SpawnStateCorrupt),
        }
    }

    /// Fill this frame's drawable records: one sphere per live target.
    pub fn prerender(&mut self, queue: &mut RenderObjects)
        ensures
            *final(self) == *old(self),
            final(queue).render_objects_static@ == old(queue).render_objects_static@,
            final(queue).render_objects@ == old(queue).render_objects@ + target_records(
                old(self).world,
                old(self).physics,
                old(self).world.slots@.len() as int,
            ),
    {
        enqueue_target(&mut self.world, &mut self.physics, queue);
    }

    /// Scene teardown: every drawable record the scene owned is dropped.
    pub fn deinit(&mut self, queue: &mut RenderObjects)
        ensures
            *final(self) == *old(self),
            final(queue).render_objects@.len() == 0,
            final(queue).render_objects_static@.len() == 0,
    {
        queue.clear();
    }
}

} // verus!
