//! Random numbers drawn from the `rand` crate.

use vstd::prelude::*;

verus! {

/// The thread-local generator of the `rand` crate (`rand::rngs::ThreadRng`).
#[verifier::external_type_specification]
#[verifier::external_body]
pub struct ExThreadRng(rand::rngs::ThreadRng);

/// Calls `rand::thread_rng`, which hands out the generator of the current thread.
/// Nothing is promised of the generator's state: it is seeded by the system.
/// (`thread_rng` panics only where the system cannot seed it, which no
/// argument decides.)
#[verifier::external_body]
pub(crate) fn thread_rng() -> rand::rngs::ThreadRng {
    rand::thread_rng()
}

/// Calls `rand::Rng::gen_range(rng, low, high)` for `usize`.
/// The crate documents, and its integer sampler shows, a value in `[low, high)`;
/// it panics when `low >= high`, which `requires` leaves out.
/// Which value comes is left open: it depends on the generator's state.
#[verifier::external_body]
pub(crate) fn gen_range(rng: &mut rand::rngs::ThreadRng, low: usize, high: usize) -> (r: usize)
    requires
        low < high,
    ensures
        low <= r < high,
{
    rand::Rng::gen_range(rng, low, high)
}

} // verus!
