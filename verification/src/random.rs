//! The random draws that seed a grid, taken from the `rand` crate.
//!
//! Nothing here is proved: Verus takes the contracts in this file on trust.
//! They say only what holds of every draw. Two draws with the same
//! arguments may differ.

use vstd::prelude::*;
use rand::rngs::ThreadRng;
use rand::Rng;

verus! {

/// The generator type of `rand::thread_rng`. Verus sees nothing inside it.
#[verifier::external_type_specification]
#[verifier::external_body]
pub struct ExThreadRng(ThreadRng);

/// `rand::thread_rng` hands out the calling thread's generator, which the
/// operating system seeds on first use. Nothing is claimed of the generator.
/// Where the operating system gives no seed the call panics; no argument
/// decides that, so no `requires` can leave it out.
pub assume_specification[ rand::thread_rng ]() -> (rng: ThreadRng);

/// `Rng::gen_range` on the half-open range `low..high` of `u32`. It panics
/// on an empty range, which `requires` leaves out. The draw lies in the
/// range: it is `low` plus a number below `high - low`.
#[verifier::external_body]
pub(crate) fn gen_range(rng: &mut ThreadRng, low: u32, high: u32) -> (draw: u32)
    requires
        low < high,
    ensures
        low <= draw < high,
{
    rng.gen_range(low..high)
}

/// `Rng::gen_ratio`: true with a chance of `numerator` in `denominator`. It
/// panics on a zero denominator and on a chance above one, which `requires`
/// leaves out. Nothing is claimed of the draw.
#[verifier::external_body]
pub(crate) fn gen_ratio(rng: &mut ThreadRng, numerator: u32, denominator: u32) -> (draw: bool)
    requires
        0 < denominator,
        numerator <= denominator,
{
    rng.gen_ratio(numerator, denominator)
}

} // verus!
