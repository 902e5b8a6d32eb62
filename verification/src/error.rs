//! Fatal errors: broken invariants that must abort the frame, never be
//! papered over with stale state.
//!
//! A hit-scan that finds nothing, or finds geometry without a hittable
//! component, is not an error — it scores as a miss. The conditions here
//! are the unrecoverable ones; the unverified rim aborts when it sees one.

use vstd::prelude::*;

verus! {

/// An invariant violation. The library returns it instead of panicking;
/// the caller aborts.
#[derive(Clone, Copy, PartialEq, Eq, Structural, Debug)]
pub enum FatalError {
    /// A `Pop` would leave the scene stack empty (or pop nothing at all).
    PopOutOfRange,
    /// An entity id whose slot is no longer (or never was) live.
    DeadEntity,
    /// A collider handle whose slot is no longer (or never was) live.
    BadColliderHandle,
    /// A body handle whose slot is no longer (or never was) live.
    BadBodyHandle,
    /// The respawn cadence saw a state it can never reach.
    SpawnStateCorrupt,
    /// A transition message lacks a key the reader requires.
    MessageKeyMissing,
    /// A transition message carries the wrong tag under a required key.
    MessageTypeMismatch,
}

} // verus!
