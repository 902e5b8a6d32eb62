//! The gunman enemy: a cooldown-gated fire state machine that shoots
//! bullets at the tracked player position, and the bullet it spawns.

use vstd::prelude::*;

use rand::rngs::SmallRng;

use crate::geom::Vec3;
use crate::render_objects::MaterialType;
use crate::rng::rng_gen_range_u32;
use crate::swordman::sat32;
use crate::timer::Timer;
use crate::world::EntityId;

verus! {

/// Hits a gunman survives.
pub const GUNMAN_MAX_HEALTH: u32 = 3;

/// Shortest pause between two aims, milliseconds.
pub const GUNMAN_COOLDOWN_MIN_MS: u32 = 1000;

/// Longest pause between two aims, milliseconds (exclusive).
pub const GUNMAN_COOLDOWN_MAX_MS: u32 = 3000;

/// How long the gunman aims before firing, milliseconds.
pub const GUNMAN_AIM_MS: u32 = 500;

/// How long a bullet lives before it is swept away, milliseconds.
pub const BULLET_LIFETIME_MS: u32 = 3000;

/// The gunman's fire cycle: resting until the cooldown runs out, then
/// aiming, then a shot and a fresh cooldown.
#[derive(Clone, Copy, Debug)]
pub enum GunmanState {
    Idle(Timer),
    Aim(Timer),
}

/// A gunman: health, flinch-free hit counter and the fire cycle.
#[derive(Clone, Copy, Debug)]
pub struct Gunman {
    pub health: u32,
    pub state: GunmanState,
}

/// The shot a gunman fires on one tick: the travel the bullet makes each
/// second, aimed at where the player stood.
#[derive(Clone, Copy, Debug)]
pub struct BulletSpawn {
    pub velocity: Vec3,
}

/// A bullet in flight: its per-second travel, who fired it, and how long
/// it still lives.
#[derive(Clone, Copy, Debug)]
pub struct Bullet {
    pub velocity: Vec3,
    pub owner: EntityId,
    pub lifetime: Timer,
}

impl Gunman {
    /// A fresh gunman starts resting, with a cooldown drawn from the
    /// configured band.
    pub fn new(rng: &mut SmallRng) -> (r: Gunman)
        ensures
            r.health == GUNMAN_MAX_HEALTH,
            match r.state {
                GunmanState::Idle(t) => GUNMAN_COOLDOWN_MIN_MS <= t.remaining_ms
                    < GUNMAN_COOLDOWN_MAX_MS,
                GunmanState::Aim(_) => false,
            },
    {
        let cooldown = rng_gen_range_u32(rng, GUNMAN_COOLDOWN_MIN_MS, GUNMAN_COOLDOWN_MAX_MS);
        Gunman { health: GUNMAN_MAX_HEALTH, state: GunmanState::Idle(Timer::new(cooldown)) }
    }

    /// Take one hit: health drops by one, never below zero.
    pub fn hit(&mut self)
        ensures
            final(self).health == if old(self).health > 0 {
                old(self).health - 1
            } else {
                0int
            },
            final(self).state == old(self).state,
    {
        if self.health > 0 {
            self.health = self.health - 1;
        }
    }

    /// A dead gunman is despawned by the removal sweep.
    pub fn is_dead(&self) -> (r: bool)
        ensures
            r == (self.health == 0),
    {
        self.health == 0
    }

    /// The material the gunman is drawn with: white at full health, orange
    /// once it has been hit.
    pub open spec fn spec_material(self) -> MaterialType {
        if self.health == GUNMAN_MAX_HEALTH {
            MaterialType::White
        } else {
            MaterialType::Orange
        }
    }

    pub fn get_material(&self) -> (r: MaterialType)
        ensures
            r == self.spec_material(),
    {
        if self.health == GUNMAN_MAX_HEALTH {
            MaterialType::White
        } else {
            MaterialType::Orange
        }
    }

    /// One tick of the fire cycle. Resting: the cooldown advances, and
    /// when it runs out the gunman starts aiming. Aiming: the aim countdown
    /// advances, and when it runs out the gunman fires one shot at the
    /// player and rests again with a fresh cooldown from the band.
    pub fn update(&mut self, delta_ms: u32, rng: &mut SmallRng, own_pos: &Vec3, player: &Vec3)
        -> (fire: Option<BulletSpawn>)
        ensures
            final(self).health == old(self).health,
            match old(self).state {
                GunmanState::Idle(t) => {
                    let left = t.spec_updated(delta_ms);
                    &&& fire is None
                    &&& if left.remaining_ms == 0 {
                        final(self).state == GunmanState::Aim(
                            Timer { remaining_ms: GUNMAN_AIM_MS },
                        )
                    } else {
                        final(self).state == GunmanState::Idle(left)
                    }
                },
                GunmanState::Aim(t) => {
                    let left = t.spec_updated(delta_ms);
                    if left.remaining_ms == 0 {
                        &&& fire == Some(
                            BulletSpawn {
                                velocity: Vec3 {
                                    x: sat32(player.x - own_pos.x) as i32,
                                    y: sat32(player.y - own_pos.y) as i32,
                                    z: sat32(player.z - own_pos.z) as i32,
                                },
                            },
                        )
                        &&& match final(self).state {
                            GunmanState::Idle(c) => GUNMAN_COOLDOWN_MIN_MS <= c.remaining_ms
                                < GUNMAN_COOLDOWN_MAX_MS,
                            GunmanState::Aim(_) => false,
                        }
                    } else {
                        &&& fire is None
                        &&& final(self).state == GunmanState::Aim(left)
                    }
                },
            },
    {
        match &mut self.state {
            GunmanState::Idle(t) => {
                t.update(delta_ms);
                if t.is_finished() {
                    self.state = GunmanState::Aim(Timer::new(GUNMAN_AIM_MS));
                }
                None
            },
            GunmanState::Aim(t) => {
                t.update(delta_ms);
                if t.is_finished() {
                    let velocity = Vec3 {
                        x: diff32(player.x, own_pos.x),
                        y: diff32(player.y, own_pos.y),
                        z: diff32(player.z, own_pos.z),
                    };
                    let cooldown = rng_gen_range_u32(
                        rng,
                        GUNMAN_COOLDOWN_MIN_MS,
                        GUNMAN_COOLDOWN_MAX_MS,
                    );
                    self.state = GunmanState::Idle(Timer::new(cooldown));
                    Some(BulletSpawn { velocity })
                } else {
                    None
                }
            },
        }
    }
}

/// The difference of two coordinates, pressed into the 32-bit range;
/// implements `sat32` of the subtraction.
fn diff32(a: i32, b: i32) -> (r: i32)
    ensures
        r as int == sat32(a - b),
{
    let d: i64 = a as i64 - b as i64;
    if d > i32::MAX as i64 {
        i32::MAX
    } else if d < i32::MIN as i64 {
        i32::MIN
    } else {
        d as i32
    }
}

impl Bullet {
    pub fn new(velocity: Vec3, owner: EntityId) -> (r: Bullet)
        ensures
            r.velocity == velocity,
            r.owner == owner,
            r.lifetime.remaining_ms == BULLET_LIFETIME_MS,
    {
        Bullet { velocity, owner, lifetime: Timer::new(BULLET_LIFETIME_MS) }
    }

    /// Advance the bullet's lifetime; it is due for despawn exactly when
    /// the lifetime has run out.
    pub fn is_need_to_be_deleted(&mut self, delta_ms: u32) -> (r: bool)
        ensures
            final(self).velocity == old(self).velocity,
            final(self).owner == old(self).owner,
            final(self).lifetime == old(self).lifetime.spec_updated(delta_ms),
            r == (final(self).lifetime.remaining_ms == 0),
    {
        self.lifetime.update(delta_ms);
        self.lifetime.is_finished()
    }
}

} // verus!
