//! The thread's random number generator, as far as the canvas draws on it.
//!
//! Nothing in this file is proved: each contract states what the `rand` crate
//! documents of the call, and no more.

use rand::Rng;
use vstd::prelude::*;

verus! {

/// The handle to the thread's generator, `rand::rngs::ThreadRng`.  Verus
/// carries it through without looking inside.
#[verifier::external_type_specification]
#[verifier::external_body]
pub struct ExThreadRng(rand::rngs::ThreadRng);

/// `rand::thread_rng`: hands out the handle to the generator of the calling
/// thread.  Nothing is claimed of the handle.  The first call on a thread
/// seeds the generator from the system, and fails where the system has no
/// entropy to give; no argument decides that, so nothing is left out.
pub assume_specification[ rand::thread_rng ]() -> (rng: rand::rngs::ThreadRng)
;

/// `rand::Rng::gen_range` on a half-open range of `usize`.  The call panics on
/// an empty range, which `requires` leaves out; what it returns lies in the
/// range, and that is all that holds of every draw.  A draw also fails where
/// the generator is due to be seeded anew and the system has no entropy to
/// give; no argument decides that, so nothing is left out for it.
#[verifier::external_body]
pub(crate) fn gen_range(rng: &mut rand::rngs::ThreadRng, low: usize, high: usize) -> (value: usize)
    requires
        low < high,
    ensures
        low <= value < high,
{
    rng.gen_range(low..high)
}

/// `rand::Rng::gen_ratio`: true with a chance of `numerator` in `denominator`.
/// The call panics when the denominator is zero or smaller than the
/// numerator, which `requires` leaves out.  The outcome is certain only at the
/// two ends, as the crate documents.  A draw also fails where the generator
/// is due to be seeded anew and the system has no entropy to give; no
/// argument decides that, so nothing is left out for it.
#[verifier::external_body]
pub(crate) fn gen_ratio(
    rng: &mut rand::rngs::ThreadRng,
    numerator: u32,
    denominator: u32,
) -> (hit: bool)
    requires
        0 < denominator,
        numerator <= denominator,
    ensures
        numerator == denominator ==> hit,
        numerator == 0 ==> !hit,
{
    rng.gen_ratio(numerator, denominator)
}

} // verus!
