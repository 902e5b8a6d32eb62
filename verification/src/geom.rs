//! Fixed-point geometry: positions and radii in whole millimetres,
//! directions scaled by `FP_ONE` per unit.
//!
//! The renderer and the rigid-body integrator work in floating point
//! outside the library; at the boundary their values are rounded to these
//! integer vectors, so every geometric rule here is exact.

use vstd::prelude::*;

verus! {

/// One fixed-point unit: a direction component of length one is `FP_ONE`.
pub const FP_ONE: i32 = 1000;

/// A point or direction, fixed point (millimetres, or thousandths for a
/// unit direction).
#[derive(Clone, Copy, PartialEq, Eq, Structural, Debug)]
pub struct Vec3 {
    pub x: i32,
    pub y: i32,
    pub z: i32,
}

impl Vec3 {
    pub fn new(x: i32, y: i32, z: i32) -> (r: Vec3)
        ensures
            r == (Vec3 { x, y, z }),
    {
        Vec3 { x, y, z }
    }

    pub fn zero() -> (r: Vec3)
        ensures
            r == (Vec3 { x: 0, y: 0, z: 0 }),
    {
        Vec3 { x: 0, y: 0, z: 0 }
    }
}

/// Four generic fixed-point slots; their meaning depends on the drawable's
/// shape (a radius, an animation progress, a half-extent).
#[derive(Clone, Copy, PartialEq, Eq, Structural, Debug)]
pub struct Vec4 {
    pub x: i32,
    pub y: i32,
    pub z: i32,
    pub w: i32,
}

impl Vec4 {
    pub fn new(x: i32, y: i32, z: i32, w: i32) -> (r: Vec4)
        ensures
            r == (Vec4 { x, y, z, w }),
    {
        Vec4 { x, y, z, w }
    }

    pub fn zero() -> (r: Vec4)
        ensures
            r == (Vec4 { x: 0, y: 0, z: 0, w: 0 }),
    {
        Vec4 { x: 0, y: 0, z: 0, w: 0 }
    }
}

/// Mathematical dot product of two vectors, over unbounded integers.
pub open spec fn spec_dot(a: Vec3, b: Vec3) -> int {
    a.x * b.x + a.y * b.y + a.z * b.z
}

/// Mathematical squared distance between two points.
pub open spec fn spec_dist2(a: Vec3, b: Vec3) -> int {
    (a.x - b.x) * (a.x - b.x) + (a.y - b.y) * (a.y - b.y) + (a.z - b.z) * (a.z - b.z)
}

} // verus!
