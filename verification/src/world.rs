//! The entity store: a sparse arena from entity id to the entity's
//! component bundle.
//!
//! Ids carry a generation besides their slot index: a despawn bumps the
//! slot's generation, so a stale id can never reach a later tenant of the
//! same slot. Removal during iteration is deferred: sweeps collect ids
//! first and despawn after the walk, as the despawn protocol requires.

use vstd::prelude::*;

use crate::error::FatalError;
use crate::gunman::{Bullet, Gunman};
use crate::physics::{BodyHandle, ColliderHandle};
use crate::swordman::Swordman;
use crate::target::Target;

verus! {

/// An entity id: the slot it lives in and the generation it was issued
/// under.
#[derive(Clone, Copy, PartialEq, Eq, Structural, Debug, Hash)]
pub struct EntityId {
    pub index: u32,
    pub generation: u32,
}

/// What kind of thing an entity is, with its kind-specific state.
#[derive(Clone, Copy, Debug)]
pub enum EntityKind {
    Target(Target),
    Swordman(Swordman),
    Gunman(Gunman),
    Bullet(Bullet),
    Wall,
    Player,
}

/// Everything one entity carries: its kind and its back-references into
/// the physics world.
#[derive(Clone, Copy, Debug)]
pub struct ComponentBundle {
    pub kind: EntityKind,
    pub collider: Option<ColliderHandle>,
    pub body: Option<BodyHandle>,
}

/// The arena of entities. A `None` slot is free; its generation says which
/// ids for that slot are already spent.
pub struct EntityWorld {
    pub slots: Vec<Option<ComponentBundle>>,
    pub generations: Vec<u32>,
}

impl EntityWorld {
    /// One generation entry per slot, and a live slot's generation is
    /// never the last one, so a despawn can always spend it.
    pub open spec fn wf(self) -> bool {
        &&& self.slots@.len() == self.generations@.len()
        &&& self.slots@.len() <= u32::MAX as int
        &&& forall|i: int|
            0 <= i < self.slots@.len() && self.slots@[i] is Some
                ==> self.generations@[i] < u32::MAX
    }

    /// Is `id` spent: its slot has moved past its generation, so it can
    /// never be live again.
    pub open spec fn spec_spent(self, id: EntityId) -> bool {
        &&& (id.index as int) < self.generations@.len()
        &&& self.generations@[id.index as int] > id.generation
    }

    /// Is `id` the live tenant of its slot?
    pub open spec fn spec_live(self, id: EntityId) -> bool {
        &&& (id.index as int) < self.slots@.len()
        &&& self.generations@[id.index as int] == id.generation
        &&& self.slots@[id.index as int] is Some
    }

    /// The bundle `id` refers to, if it is live.
    pub open spec fn spec_get(self, id: EntityId) -> Option<ComponentBundle> {
        if self.spec_live(id) {
            self.slots@[id.index as int]
        } else {
            None
        }
    }

    pub fn new() -> (r: EntityWorld)
        ensures
            r.wf(),
            r.slots@.len() == 0,
            forall|id: EntityId| !r.spec_live(id),
    {
        EntityWorld { slots: Vec::new(), generations: Vec::new() }
    }

    /// Is `id` live now?
    pub fn contains(&self, id: EntityId) -> (r: bool)
        requires
            self.wf(),
        ensures
            r == self.spec_live(id),
    {
        let idx = id.index as usize;
        idx < self.slots.len() && self.generations[idx] == id.generation
            && self.slots[idx].is_some()
    }

    /// Read the bundle of a live entity.
    pub fn get(&self, id: EntityId) -> (r: Option<&ComponentBundle>)
        requires
            self.wf(),
        ensures
            match r {
                Some(b) => self.spec_get(id) == Some(*b),
                None => !self.spec_live(id),
            },
    {
        let idx = id.index as usize;
        if idx < self.slots.len() && self.generations[idx] == id.generation {
            match &self.slots[idx] {
                Some(b) => Some(b),
                None => None,
            }
        } else {
            None
        }
    }

    /// Replace the bundle of a live entity; fatal on a dead id.
    pub fn set(&mut self, id: EntityId, bundle: ComponentBundle) -> (r: Result<(), FatalError>)
        requires
            old(self).wf(),
        ensures
            final(self).wf(),
            final(self).slots@.len() == old(self).slots@.len(),
            final(self).generations@ == old(self).generations@,
            match r {
                Ok(()) => {
                    &&& old(self).spec_live(id)
                    &&& final(self).slots@ == old(self).slots@.update(
                        id.index as int,
                        Some(bundle),
                    )
                    &&& final(self).spec_get(id) == Some(bundle)
                    &&& final(self).spec_live(id)
                    &&& forall|o: EntityId|
                        o != id ==> final(self).spec_get(o) == old(self).spec_get(o)
                    &&& forall|o: EntityId|
                        o != id ==> (final(self).spec_live(o) <==> old(self).spec_live(o))
                    &&& forall|o: EntityId|
                        final(self).spec_spent(o) <==> old(self).spec_spent(o)
                },
                Err(e) => {
                    &&& e == FatalError::DeadEntity
                    &&& !old(self).spec_live(id)
                    &&& *final(self) == *old(self)
                },
            },
    {
        let idx = id.index as usize;
        if idx < self.slots.len() && self.generations[idx] == id.generation
            && self.slots[idx].is_some() {
            self.slots[idx] = Some(bundle);
            Ok(())
        } else {
            Err(FatalError::DeadEntity)
        }
    }

    /// Give `bundle` a fresh id: the first spent slot is reused under its
    /// next generation, else a new slot is opened. The id returned was
    /// never live before, and no other entity moves.
    pub fn spawn(&mut self, bundle: ComponentBundle) -> (id: EntityId)
        requires
            old(self).wf(),
            old(self).slots@.len() < u32::MAX as int,
        ensures
            final(self).wf(),
            final(self).spec_live(id),
            final(self).spec_get(id) == Some(bundle),
            !old(self).spec_live(id),
            !old(self).spec_spent(id),
            forall|o: EntityId| o != id ==> final(self).spec_get(o) == old(self).spec_get(o),
            forall|o: EntityId|
                o != id ==> (final(self).spec_live(o) <==> old(self).spec_live(o)),
            forall|o: EntityId| old(self).spec_spent(o) ==> final(self).spec_spent(o),
            forall|o: EntityId| final(self).spec_spent(o) ==> old(self).spec_spent(o),
            old(self).slots@.len() <= final(self).slots@.len() <= old(self).slots@.len() + 1,
    {
        let mut i: usize = 0;
        while i < self.slots.len()
            invariant
                self.wf(),
                *old(self) == *self,
                i <= self.slots@.len(),
                self.slots@.len() < u32::MAX as int,
            decreases self.slots@.len() - i,
        {
            if self.slots[i].is_none() && self.generations[i] < u32::MAX {
                let id = EntityId { index: i as u32, generation: self.generations[i] };
                self.slots[i] = Some(bundle);
                return id;
            }
            i = i + 1;
        }
        let id = EntityId { index: self.slots.len() as u32, generation: 0 };
        self.slots.push(Some(bundle));
        self.generations.push(0);
        id
    }

    /// Tear the entity down: its slot is freed and its generation spent,
    /// so the id can never resolve again. Fatal on a dead id.
    pub fn despawn(&mut self, id: EntityId) -> (r: Result<ComponentBundle, FatalError>)
        requires
            old(self).wf(),
        ensures
            final(self).wf(),
            final(self).slots@.len() == old(self).slots@.len(),
            match r {
                Ok(b) => {
                    &&& old(self).spec_get(id) == Some(b)
                    &&& !final(self).spec_live(id)
                    &&& final(self).spec_get(id) is None
                    &&& final(self).spec_spent(id)
                    &&& forall|o: EntityId|
                        o != id ==> final(self).spec_get(o) == old(self).spec_get(o)
                    &&& forall|o: EntityId|
                        o != id ==> (final(self).spec_live(o) <==> old(self).spec_live(o))
                    &&& forall|o: EntityId| old(self).spec_spent(o) ==> final(self).spec_spent(o)
                },
                Err(e) => {
                    &&& e == FatalError::DeadEntity
                    &&& !old(self).spec_live(id)
                    &&& *final(self) == *old(self)
                },
            },
    {
        let idx = id.index as usize;
        if idx < self.slots.len() && self.generations[idx] == id.generation {
            match self.slots[idx] {
                Some(b) => {
                    self.slots[idx] = None;
                    let g = self.generations[idx];
                    self.generations[idx] = g + 1;
                    Ok(b)
                },
                None => Err(FatalError::DeadEntity),
            }
        } else {
            Err(FatalError::DeadEntity)
        }
    }

    /// The id of the live tenant of slot `index`; used by sweeps that
    /// walk the arena by slot.
    pub fn id_at(&self, index: usize) -> (id: EntityId)
        requires
            self.wf(),
            index < self.slots@.len(),
            self.slots@[index as int] is Some,
        ensures
            id.index == index,
            self.spec_live(id),
            self.spec_get(id) == self.slots@[index as int],
    {
        EntityId { index: index as u32, generation: self.generations[index] }
    }

    /// How many slots the arena has opened so far.
    pub fn slot_count(&self) -> (r: usize)
        ensures
            r == self.slots@.len(),
    {
        self.slots.len()
    }
}

} // verus!
