//! The source of random numbers: the thread-local generator of the `rand`
//! crate.

use rand::rngs::ThreadRng;
use rand::Rng;
use vstd::prelude::*;

verus! {

/// The handle of `rand`'s thread-local generator. Nothing is known of what
/// it holds.
#[verifier::external_type_specification]
#[verifier::external_body]
pub struct ExThreadRng(ThreadRng);

/// `rand::thread_rng()` hands out the handle of the thread's generator.
///
/// Trusted, not proved; nothing is claimed of the handle. (The generator
/// seeds itself from the operating system at its first use in a thread, and
/// panics if that source is not available.)
pub assume_specification[ rand::thread_rng ]() -> (rng: ThreadRng)
;

/// Draws a number by `Rng::gen_range(low, high)`.
///
/// Trusted, not proved: `gen_range` returns a value that is at least `low`
/// and less than `high`; it panics if `low >= high`, which the precondition
/// rules out. Nothing else is claimed of the value, and two calls may
/// differ.
#[verifier::external_body]
pub(crate) fn gen_range(rng: &mut ThreadRng, low: u16, high: u16) -> (value: u16)
    requires
        low < high,
    ensures
        low <= value < high,
{
    rng.gen_range(low, high)
}

} // verus!
