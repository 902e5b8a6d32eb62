//! The physics side of a scene: the collider and body records the
//! gameplay logic reads, with an explicit side-table from collider to
//! owning entity.
//!
//! The narrow-phase work — integration of the dynamic bodies and the ray
//! cast of a hit-scan — is the rigid-body engine's, outside the library;
//! each frame the unverified rim mirrors these records into the engine,
//! steps it, writes the moved positions back through the setters here, and
//! hands ray hits back as collider handles. Handle slots are retired when
//! a record is removed and never reused, so a stale handle can only miss.

use vstd::prelude::*;

use crate::error::FatalError;
use crate::geom::Vec3;
use crate::world::EntityId;

verus! {

/// A collider's slot in the side-table.
#[derive(Clone, Copy, PartialEq, Eq, Structural, Debug)]
pub struct ColliderHandle {
    pub index: u32,
}

/// A rigid body's slot.
#[derive(Clone, Copy, PartialEq, Eq, Structural, Debug)]
pub struct BodyHandle {
    pub index: u32,
}

/// The shape a collider presents to the ray cast, millimetres.
#[derive(Clone, Copy, Debug)]
pub enum ColliderShape {
    Cuboid(Vec3),
    Ball(i32),
    Capsule { half_height: i32, radius: i32 },
}

/// One collider: who owns it (`None` for static world geometry), its
/// shape, where it sits, and the body it rides on, if any.
#[derive(Clone, Copy, Debug)]
pub struct ColliderRec {
    pub owner: Option<EntityId>,
    pub shape: ColliderShape,
    pub position: Vec3,
    pub parent: Option<BodyHandle>,
}

/// One rigid body: where it is and how it moves, millimetres and
/// millimetres per second.
#[derive(Clone, Copy, Debug)]
pub struct BodyRec {
    pub position: Vec3,
    pub linvel: Vec3,
}

/// The per-scene physics aggregate. Owned by exactly one scene and torn
/// down with it.
pub struct GamePhysics {
    pub colliders: Vec<Option<ColliderRec>>,
    pub bodies: Vec<Option<BodyRec>>,
    pub gravity: Vec3,
}

impl GamePhysics {
    pub open spec fn spec_collider_live(self, h: ColliderHandle) -> bool {
        &&& (h.index as int) < self.colliders@.len()
        &&& self.colliders@[h.index as int] is Some
    }

    pub open spec fn spec_collider(self, h: ColliderHandle) -> Option<ColliderRec> {
        if (h.index as int) < self.colliders@.len() {
            self.colliders@[h.index as int]
        } else {
            None
        }
    }

    pub open spec fn spec_body_live(self, h: BodyHandle) -> bool {
        &&& (h.index as int) < self.bodies@.len()
        &&& self.bodies@[h.index as int] is Some
    }

    pub open spec fn spec_body(self, h: BodyHandle) -> Option<BodyRec> {
        if (h.index as int) < self.bodies@.len() {
            self.bodies@[h.index as int]
        } else {
            None
        }
    }

    /// The entity a ray hit on `h` resolves to: the owner of a live
    /// collider, nothing for world geometry or a spent handle.
    pub open spec fn spec_owner_of(self, h: ColliderHandle) -> Option<EntityId> {
        match self.spec_collider(h) {
            Some(rec) => rec.owner,
            None => None,
        }
    }

    pub fn new() -> (r: GamePhysics)
        ensures
            r.colliders@.len() == 0,
            r.bodies@.len() == 0,
            r.gravity == (Vec3 { x: 0i32, y: -9810i32, z: 0i32 }),
    {
        GamePhysics {
            colliders: Vec::new(),
            bodies: Vec::new(),
            gravity: Vec3 { x: 0, y: -9810, z: 0 },
        }
    }

    /// Open a new collider slot.
    pub fn insert_collider(&mut self, rec: ColliderRec) -> (h: ColliderHandle)
        requires
            old(self).colliders@.len() < u32::MAX as int,
        ensures
            final(self).spec_collider_live(h),
            final(self).spec_collider(h) == Some(rec),
            old(self).spec_collider(h) is None,
            final(self).colliders@.len() == old(self).colliders@.len() + 1,
            forall|o: ColliderHandle|
                o != h ==> final(self).spec_collider(o) == old(self).spec_collider(o),
            final(self).bodies@ == old(self).bodies@,
            final(self).gravity == old(self).gravity,
    {
        let h = ColliderHandle { index: self.colliders.len() as u32 };
        self.colliders.push(Some(rec));
        h
    }

    /// Retire a collider slot; fatal on a spent or foreign handle.
    pub fn remove_collider(&mut self, h: ColliderHandle) -> (r: Result<ColliderRec, FatalError>)
        ensures
            final(self).bodies@ == old(self).bodies@,
            final(self).gravity == old(self).gravity,
            final(self).colliders@.len() == old(self).colliders@.len(),
            match r {
                Ok(rec) => {
                    &&& old(self).spec_collider(h) == Some(rec)
                    &&& !final(self).spec_collider_live(h)
                    &&& final(self).spec_collider(h) is None
                    &&& forall|o: ColliderHandle|
                        o != h ==> final(self).spec_collider(o) == old(self).spec_collider(o)
                },
                Err(e) => {
                    &&& e == FatalError::BadColliderHandle
                    &&& !old(self).spec_collider_live(h)
                    &&& final(self).colliders@ == old(self).colliders@
                },
            },
    {
        let idx = h.index as usize;
        if idx < self.colliders.len() {
            match self.colliders[idx] {
                Some(rec) => {
                    self.colliders[idx] = None;
                    Ok(rec)
                },
                None => Err(FatalError::BadColliderHandle),
            }
        } else {
            Err(FatalError::BadColliderHandle)
        }
    }

    /// Read a collider.
    pub fn get_collider(&self, h: ColliderHandle) -> (r: Option<&ColliderRec>)
        ensures
            match r {
                Some(rec) => self.spec_collider(h) == Some(*rec),
                None => !self.spec_collider_live(h),
            },
    {
        let idx = h.index as usize;
        if idx < self.colliders.len() {
            match &self.colliders[idx] {
                Some(rec) => Some(rec),
                None => None,
            }
        } else {
            None
        }
    }

    /// Move a collider; fatal on a spent or foreign handle.
    pub fn set_collider_position(&mut self, h: ColliderHandle, position: Vec3) -> (r: Result<
        (),
        FatalError,
    >)
        ensures
            final(self).bodies@ == old(self).bodies@,
            final(self).gravity == old(self).gravity,
            final(self).colliders@.len() == old(self).colliders@.len(),
            match r {
                Ok(()) => {
                    &&& old(self).spec_collider_live(h)
                    &&& final(self).spec_collider(h) == Some(
                        ColliderRec {
                            position,
                            ..old(self).spec_collider(h).unwrap()
                        },
                    )
                    &&& forall|o: ColliderHandle|
                        o != h ==> final(self).spec_collider(o) == old(self).spec_collider(o)
                },
                Err(e) => {
                    &&& e == FatalError::BadColliderHandle
                    &&& !old(self).spec_collider_live(h)
                    &&& final(self).colliders@ == old(self).colliders@
                },
            },
    {
        let idx = h.index as usize;
        if idx < self.colliders.len() {
            match self.colliders[idx] {
                Some(rec) => {
                    self.colliders[idx] = Some(ColliderRec { position, ..rec });
                    Ok(())
                },
                None => Err(FatalError::BadColliderHandle),
            }
        } else {
            Err(FatalError::BadColliderHandle)
        }
    }

    /// Open a new body slot.
    pub fn insert_body(&mut self, rec: BodyRec) -> (h: BodyHandle)
        requires
            old(self).bodies@.len() < u32::MAX as int,
        ensures
            final(self).spec_body_live(h),
            final(self).spec_body(h) == Some(rec),
            old(self).spec_body(h) is None,
            final(self).bodies@.len() == old(self).bodies@.len() + 1,
            forall|o: BodyHandle| o != h ==> final(self).spec_body(o) == old(self).spec_body(o),
            final(self).colliders@ == old(self).colliders@,
            final(self).gravity == old(self).gravity,
    {
        let h = BodyHandle { index: self.bodies.len() as u32 };
        self.bodies.push(Some(rec));
        h
    }

    /// Retire a body slot; fatal on a spent or foreign handle.
    pub fn remove_body(&mut self, h: BodyHandle) -> (r: Result<BodyRec, FatalError>)
        ensures
            final(self).colliders@ == old(self).colliders@,
            final(self).gravity == old(self).gravity,
            match r {
                Ok(rec) => {
                    &&& old(self).spec_body(h) == Some(rec)
                    &&& !final(self).spec_body_live(h)
                    &&& final(self).spec_body(h) is None
                    &&& forall|o: BodyHandle|
                        o != h ==> final(self).spec_body(o) == old(self).spec_body(o)
                },
                Err(e) => {
                    &&& e == FatalError::BadBodyHandle
                    &&& !old(self).spec_body_live(h)
                    &&& final(self).bodies@ == old(self).bodies@
                },
            },
    {
        let idx = h.index as usize;
        if idx < self.bodies.len() {
            match self.bodies[idx] {
                Some(rec) => {
                    self.bodies[idx] = None;
                    Ok(rec)
                },
                None => Err(FatalError::BadBodyHandle),
            }
        } else {
            Err(FatalError::BadBodyHandle)
        }
    }

    /// Read a body.
    pub fn get_body(&self, h: BodyHandle) -> (r: Option<&BodyRec>)
        ensures
            match r {
                Some(rec) => self.spec_body(h) == Some(*rec),
                None => !self.spec_body_live(h),
            },
    {
        let idx = h.index as usize;
        if idx < self.bodies.len() {
            match &self.bodies[idx] {
                Some(rec) => Some(rec),
                None => None,
            }
        } else {
            None
        }
    }

    /// Move a body; fatal on a spent or foreign handle.
    pub fn set_body_position(&mut self, h: BodyHandle, position: Vec3) -> (r: Result<
        (),
        FatalError,
    >)
        ensures
            final(self).colliders@ == old(self).colliders@,
            final(self).gravity == old(self).gravity,
            final(self).bodies@.len() == old(self).bodies@.len(),
            match r {
                Ok(()) => {
                    &&& old(self).spec_body_live(h)
                    &&& final(self).spec_body(h) == Some(
                        BodyRec { position, ..old(self).spec_body(h).unwrap() },
                    )
                    &&& forall|o: BodyHandle|
                        o != h ==> final(self).spec_body(o) == old(self).spec_body(o)
                },
                Err(e) => {
                    &&& e == FatalError::BadBodyHandle
                    &&& !old(self).spec_body_live(h)
                    &&& final(self).bodies@ == old(self).bodies@
                },
            },
    {
        let idx = h.index as usize;
        if idx < self.bodies.len() {
            match self.bodies[idx] {
                Some(rec) => {
                    self.bodies[idx] = Some(BodyRec { position, ..rec });
                    Ok(())
                },
                None => Err(FatalError::BadBodyHandle),
            }
        } else {
            Err(FatalError::BadBodyHandle)
        }
    }

    /// Resolve a ray hit: the entity owning the collider, if the handle is
    /// live and the collider is not world geometry.
    pub fn entity_of_collider(&self, h: ColliderHandle) -> (r: Option<EntityId>)
        ensures
            r == self.spec_owner_of(h),
    {
        match self.get_collider(h) {
            Some(rec) => rec.owner,
            None => None,
        }
    }
}

} // verus!
