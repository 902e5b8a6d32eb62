//! The camera's visibility volume and the bounding volumes tested against
//! it.
//!
//! The test is a forward half-space capped at the far distance, in fixed
//! point: a bounded sphere is visible when it reaches the half-space in
//! front of the camera and its centre lies within the far distance. It
//! deliberately ignores the field of view's lateral limits — everything a
//! cone test would keep passes this one too, so nothing visible is ever
//! culled. A record without a bound is never culled.

use vstd::prelude::*;

use crate::geom::{Vec3, FP_ONE};

verus! {

/// The bounding volume attached to a drawable record: nothing (never
/// culled), or a sphere of the given radius in millimetres.
#[derive(Clone, Copy, PartialEq, Eq, Structural, Debug)]
pub enum ObjectBound {
    NoBound,
    Sphere(i32),
}

/// The camera's visibility volume: position (millimetres), view direction
/// (fixed point, length `FP_ONE`), and the far distance (millimetres).
/// The lateral field-of-view limits stay with the renderer; culling here
/// is conservative.
#[derive(Clone, Copy, PartialEq, Eq, Structural, Debug)]
pub struct Frustum {
    pub cam_pos: Vec3,
    pub cam_dir: Vec3,
    pub far: i32,
}

/// The visibility rule, over unbounded integers: a sphere at `pos` with
/// radius `r` is visible when it reaches the forward half-space of the
/// camera and its centre is within `far + r` of the camera; an unbounded
/// record is always visible.
pub open spec fn spec_visible(f: Frustum, pos: Vec3, bound: ObjectBound) -> bool {
    match bound {
        ObjectBound::NoBound => true,
        ObjectBound::Sphere(r) => {
            let dx = pos.x - f.cam_pos.x;
            let dy = pos.y - f.cam_pos.y;
            let dz = pos.z - f.cam_pos.z;
            let forward = f.cam_dir.x * dx + f.cam_dir.y * dy + f.cam_dir.z * dz;
            let d2 = dx * dx + dy * dy + dz * dz;
            &&& forward + r * (FP_ONE as int) >= 0
            &&& d2 <= (f.far + r) * (f.far + r)
        },
    }
}

impl Frustum {
    pub fn new(cam_pos: Vec3, cam_dir: Vec3, far: i32) -> (r: Frustum)
        ensures
            r == (Frustum { cam_pos, cam_dir, far }),
    {
        Frustum { cam_pos, cam_dir, far }
    }

    /// Decide visibility of a bounded record; implements `spec_visible`
    /// exactly, with the arithmetic carried out in 128 bits.
    pub fn is_on_frustum(&self, pos: &Vec3, bound: &ObjectBound) -> (r: bool)
        ensures
            r == spec_visible(*self, *pos, *bound),
    {
        match bound {
            ObjectBound::NoBound => true,
            ObjectBound::Sphere(radius) => {
                let dx: i128 = pos.x as i128 - self.cam_pos.x as i128;
                let dy: i128 = pos.y as i128 - self.cam_pos.y as i128;
                let dz: i128 = pos.z as i128 - self.cam_pos.z as i128;
                let cx: i128 = self.cam_dir.x as i128;
                let cy: i128 = self.cam_dir.y as i128;
                let cz: i128 = self.cam_dir.z as i128;
                proof {
                    lemma_mul_bound(cx, dx);
                    lemma_mul_bound(cy, dy);
                    lemma_mul_bound(cz, dz);
                    lemma_mul_bound(dx, dx);
                    lemma_mul_bound(dy, dy);
                    lemma_mul_bound(dz, dz);
                }
                let forward: i128 = cx * dx + cy * dy + cz * dz;
                let d2: i128 = dx * dx + dy * dy + dz * dz;
                proof {
                    lemma_mul_bound(*radius as i128, FP_ONE as i128);
                }
                let reach: i128 = *radius as i128 * FP_ONE as i128;
                let fr: i128 = self.far as i128 + *radius as i128;
                proof {
                    lemma_mul_bound(fr, fr);
                }
                let fr2: i128 = fr * fr;
                forward + reach >= 0 && d2 <= fr2
            },
        }
    }
}

/// Products of values within twice the 32-bit range stay far inside the
/// 128-bit range.
proof fn lemma_mul_bound(a: i128, b: i128)
    requires
        -0x1_0000_0000_0000 <= a <= 0x1_0000_0000_0000,
        -0x1_0000_0000_0000 <= b <= 0x1_0000_0000_0000,
    ensures
        -0x1_0000_0000_0000_0000_0000_0000 <= a * b <= 0x1_0000_0000_0000_0000_0000_0000,
{
    assert(-0x1_0000_0000_0000_0000_0000_0000 <= a * b <= 0x1_0000_0000_0000_0000_0000_0000)
        by (nonlinear_arith)
        requires
            -0x1_0000_0000_0000 <= a <= 0x1_0000_0000_0000,
            -0x1_0000_0000_0000 <= b <= 0x1_0000_0000_0000,
    ;
}

} // verus!
