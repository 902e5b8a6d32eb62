//! The swordman enemy: walks toward the tracked player position every
//! tick, faces its direction of travel, and dies after a fixed number of
//! hits.

use vstd::prelude::*;

use crate::geom::{Vec3, FP_ONE};
use crate::render_objects::MaterialType;
use crate::timer::Timer;

verus! {

/// Hits a swordman survives.
pub const SWORDMAN_MAX_HEALTH: u32 = 3;

/// Walking speed, millimetres per second.
pub const SWORDMAN_SPEED: i32 = 1500;

/// How long the hit flinch is shown, milliseconds.
pub const SWORDMAN_HURT_MS: u32 = 300;

/// An unbounded integer pressed into the 32-bit range.
pub open spec fn sat32(v: int) -> int {
    if v > i32::MAX {
        i32::MAX as int
    } else if v < i32::MIN {
        i32::MIN as int
    } else {
        v
    }
}

/// Move `from` toward `to` by at most `step`, never overshooting.
pub open spec fn move_toward(from: int, to: int, step: int) -> int {
    if to >= from {
        if from + step <= to {
            from + step
        } else {
            to
        }
    } else {
        if from - step >= to {
            from - step
        } else {
            to
        }
    }
}

/// The swordman's state: health left, the hit-flinch countdown, and the
/// direction it faces (fixed point; forward when it has not moved yet).
#[derive(Clone, Copy, Debug)]
pub struct Swordman {
    pub health: u32,
    pub hurt: Timer,
    pub facing: Vec3,
}

impl Swordman {
    /// The flinch countdown never exceeds the flinch length.
    pub open spec fn wf(self) -> bool {
        self.hurt.remaining_ms <= SWORDMAN_HURT_MS
    }

    pub fn new() -> (r: Swordman)
        ensures
            r.health == SWORDMAN_MAX_HEALTH,
            r.hurt.remaining_ms == 0,
            r.facing == (Vec3 { x: 0, y: 0, z: FP_ONE }),
            r.wf(),
    {
        Swordman {
            health: SWORDMAN_MAX_HEALTH,
            hurt: Timer::new_finished(),
            facing: Vec3 { x: 0, y: 0, z: FP_ONE },
        }
    }

    /// Take one hit: health drops by one (never below zero) and the flinch
    /// countdown restarts.
    pub fn hit(&mut self)
        ensures
            final(self).health == if old(self).health > 0 {
                old(self).health - 1
            } else {
                0int
            },
            final(self).hurt.remaining_ms == SWORDMAN_HURT_MS,
            final(self).facing == old(self).facing,
            final(self).wf(),
    {
        if self.health > 0 {
            self.health = self.health - 1;
        }
        self.hurt.reset(SWORDMAN_HURT_MS);
    }

    /// A dead swordman is despawned by the removal sweep.
    pub fn is_dead(&self) -> (r: bool)
        ensures
            r == (self.health == 0),
    {
        self.health == 0
    }

    /// The hit flinch, in fixed point: full right after a hit, zero once
    /// the flinch countdown has run out.
    pub open spec fn spec_hitanim(self) -> int {
        if self.hurt.remaining_ms >= SWORDMAN_HURT_MS {
            FP_ONE as int
        } else {
            self.hurt.remaining_ms * FP_ONE / SWORDMAN_HURT_MS as int
        }
    }

    pub fn hitanim(&self) -> (r: i32)
        ensures
            r == self.spec_hitanim(),
    {
        if self.hurt.remaining_ms >= SWORDMAN_HURT_MS {
            FP_ONE
        } else {
            proof {
                assert((self.hurt.remaining_ms as u64) * (FP_ONE as u64) <= 299000)
                    by (nonlinear_arith)
                    requires
                        self.hurt.remaining_ms < 300,
                        FP_ONE == 1000,
                ;
            }
            ((self.hurt.remaining_ms as u64 * FP_ONE as u64 / SWORDMAN_HURT_MS as u64)) as i32
        }
    }

    /// The swordman and position as one `update` tick leaves them: the
    /// flinch countdown advanced, the position moved toward the player by
    /// at most a speed-and-delta-time step on each axis, and the facing
    /// turned to the direction of travel (kept when there was no travel).
    pub open spec fn spec_step(self, delta_ms: u32, pos: Vec3, player: Vec3) -> (Swordman, Vec3) {
        let step = SWORDMAN_SPEED as int * delta_ms as int / 1000;
        let nx = move_toward(pos.x as int, player.x as int, step);
        let nz = move_toward(pos.z as int, player.z as int, step);
        let moved = !(nx == pos.x as int && nz == pos.z as int);
        let facing = if moved {
            Vec3 { x: sat32(nx - pos.x) as i32, y: 0i32, z: sat32(nz - pos.z) as i32 }
        } else {
            self.facing
        };
        (
            Swordman { health: self.health, hurt: self.hurt.spec_updated(delta_ms), facing },
            Vec3 { x: nx as i32, y: pos.y, z: nz as i32 },
        )
    }

    /// One tick: implements `spec_step` exactly.
    pub fn update(&mut self, delta_ms: u32, pos: &mut Vec3, player: &Vec3)
        ensures
            old(self).wf() ==> final(self).wf(),
            (*final(self), *final(pos)) == old(self).spec_step(delta_ms, *old(pos), *player),
    {
        self.hurt.update(delta_ms);
        let step: i64 = SWORDMAN_SPEED as i64 * delta_ms as i64 / 1000;
        let old_x = pos.x;
        let old_z = pos.z;
        pos.x = step_axis(pos.x, player.x, step);
        pos.z = step_axis(pos.z, player.z, step);
        let dx: i64 = (pos.x as i64) - (old_x as i64);
        let dz: i64 = (pos.z as i64) - (old_z as i64);
        if dx != 0 || dz != 0 {
            self.facing = Vec3 { x: sat32_exec(dx), y: 0, z: sat32_exec(dz) };
        }
    }

    /// The material the swordman is drawn with: red while the hit flinch
    /// lasts, white otherwise.
    pub open spec fn spec_material(self) -> MaterialType {
        if self.hurt.remaining_ms > 0 {
            MaterialType::Red
        } else {
            MaterialType::White
        }
    }

    pub fn get_material(&self) -> (r: MaterialType)
        ensures
            r == self.spec_material(),
    {
        if self.hurt.remaining_ms > 0 {
            MaterialType::Red
        } else {
            MaterialType::White
        }
    }

    /// The direction the swordman faces, recomputed from its travel.
    pub fn get_rotation(&self) -> (r: Vec3)
        ensures
            r == self.facing,
    {
        self.facing
    }
}

/// Press a 64-bit value into the 32-bit range; implements `sat32`.
fn sat32_exec(v: i64) -> (r: i32)
    ensures
        r as int == sat32(v as int),
{
    if v > i32::MAX as i64 {
        i32::MAX
    } else if v < i32::MIN as i64 {
        i32::MIN
    } else {
        v as i32
    }
}

/// Advance one coordinate toward a goal by at most `step`.
fn step_axis(from: i32, to: i32, step: i64) -> (r: i32)
    requires
        step >= 0,
    ensures
        r == move_toward(from as int, to as int, step as int),
{
    let d: i64 = to as i64 - from as i64;
    if d >= 0 {
        if d <= step {
            to
        } else {
            (from as i64 + step) as i32
        }
    } else {
        if -d <= step {
            to
        } else {
            (from as i64 - step) as i32
        }
    }
}

} // verus!
