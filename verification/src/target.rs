//! The shooting-range target: the entity the classic mode is played
//! against.
//!
//! A target is alive-unshot, alive-shot, or expired. It expires when its
//! optional lifetime countdown reaches zero; the first hit marks it shot
//! and schedules it for the next removal sweep; later hits score nothing.

use vstd::prelude::*;

use crate::render_objects::MaterialType;
use crate::timer::Timer;

verus! {

/// The radius of a target's ball collider, millimetres.
pub const TARGET_RADIUS_MM: i32 = 500;

/// A target's state: whether it has been shot, and the countdown (if any)
/// after which it is torn down.
#[derive(Clone, Copy, Debug)]
pub struct Target {
    pub shot: bool,
    pub lifetime: Option<Timer>,
}

impl Target {
    /// A target that stays until it is shot.
    pub fn new() -> (r: Target)
        ensures
            !r.shot,
            r.lifetime is None,
    {
        Target { shot: false, lifetime: None }
    }

    /// A target that is torn down when `delete_duration` runs out, shot or
    /// not.
    pub fn new_with_delete_duration(delete_duration: Timer) -> (r: Target)
        ensures
            !r.shot,
            r.lifetime == Some(delete_duration),
    {
        Target { shot: false, lifetime: Some(delete_duration) }
    }

    pub fn is_shooted(&self) -> (r: bool)
        ensures
            r == self.shot,
    {
        self.shot
    }

    /// Record the first hit: the target counts as shot and is picked up by
    /// the next removal sweep.
    pub fn shooted(&mut self)
        ensures
            final(self).shot,
            final(self).lifetime == Some(Timer { remaining_ms: 0u32 }),
    {
        self.shot = true;
        self.lifetime = Some(Timer::new_finished());
    }

    /// The target as one sweep tick leaves it: the lifetime countdown, if
    /// any, advanced by the delta.
    pub open spec fn spec_advanced(self, delta_ms: u32) -> Target {
        Target {
            shot: self.shot,
            lifetime: match self.lifetime {
                Some(t) => Some(t.spec_updated(delta_ms)),
                None => None,
            },
        }
    }

    /// Is the target due for despawn after a tick of `delta_ms`: exactly
    /// when its countdown has run out. A target without a countdown is
    /// never due.
    pub open spec fn spec_due(self, delta_ms: u32) -> bool {
        match self.lifetime {
            Some(t) => t.spec_updated(delta_ms).remaining_ms == 0,
            None => false,
        }
    }

    /// Advance the lifetime countdown by `delta_ms` and say whether the
    /// target is due for despawn; implements `spec_advanced` and
    /// `spec_due`.
    pub fn is_need_to_be_deleted(&mut self, delta_ms: u32) -> (r: bool)
        ensures
            *final(self) == old(self).spec_advanced(delta_ms),
            r == old(self).spec_due(delta_ms),
    {
        match &mut self.lifetime {
            Some(t) => {
                t.update(delta_ms);
                t.is_finished()
            },
            None => false,
        }
    }

    /// The material the target is drawn with: its own texture until it is
    /// shot, plain red afterwards.
    pub fn get_material(&self) -> (r: MaterialType)
        ensures
            r == if self.shot {
                MaterialType::Red
            } else {
                MaterialType::Target
            },
    {
        if self.shot {
            MaterialType::Red
        } else {
            MaterialType::Target
        }
    }
}

} // verus!
