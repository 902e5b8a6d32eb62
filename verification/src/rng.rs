//! The gameplay random-number source: rand's small fast generator, behind
//! wrappers that state only what holds of every draw.

use vstd::prelude::*;

use rand::rngs::SmallRng;
use rand::Rng;
use rand::SeedableRng;

verus! {

#[verifier::external_type_specification]
#[verifier::external_body]
pub struct ExSmallRng(SmallRng);

/// Relies on rand's `SeedableRng::from_entropy`: a fresh generator seeded
/// by the operating system. Nothing is promised of its stream. The call
/// panics if the operating system cannot supply entropy — an
/// environmental failure, like running out of memory, that no
/// precondition can exclude.
#[verifier::external_body]
pub(crate) fn rng_from_entropy() -> SmallRng {
    SmallRng::from_entropy()
}

/// Relies on rand's `Rng::gen_range` over the half-open range `lo..hi`:
/// the draw lies in the range; the call panics only on an empty range,
/// which the precondition rules out.
#[verifier::external_body]
pub(crate) fn rng_gen_range_i32(rng: &mut SmallRng, lo: i32, hi: i32) -> (r: i32)
    requires
        lo < hi,
    ensures
        lo <= r < hi,
{
    rng.gen_range(lo..hi)
}

/// Relies on rand's `Rng::gen_range` over the half-open range `lo..hi`:
/// the draw lies in the range; the call panics only on an empty range,
/// which the precondition rules out.
#[verifier::external_body]
pub(crate) fn rng_gen_range_u32(rng: &mut SmallRng, lo: u32, hi: u32) -> (r: u32)
    requires
        lo < hi,
    ensures
        lo <= r < hi,
{
    rng.gen_range(lo..hi)
}

} // verus!
