//! Chance, taken from the `rand` crate's generator of the running thread.
//!
//! Nothing here is proved: these are the three places where the library
//! believes what `rand` documents. No contract says which value comes out,
//! only the bounds within which every value lies.
//!
//! The generator seeds itself from the operating system. Where the system
//! gives no entropy, each of the three calls panics; no argument decides that,
//! so no contract can leave it out, and it stands beside running out of
//! memory.

use rand::rngs::ThreadRng;
use rand::Rng;
use vstd::prelude::*;

verus! {

/// `rand::rngs::ThreadRng`: the handle itself. It is carried from call to
/// call, and nothing is known of what it holds.
#[verifier::external_type_specification]
#[verifier::external_body]
pub struct ExThreadRng(ThreadRng);

/// `rand::thread_rng`: a handle on the generator of the running thread.
/// Nothing is claimed of the handle.
pub assume_specification[ rand::thread_rng ]() -> (rng: ThreadRng)
;

/// `Rng::gen::<bool>`: either side of a coin. Nothing is claimed of the side.
#[verifier::external_body]
pub(crate) fn flip(rng: &mut ThreadRng) -> (side: bool) {
    rng.gen::<bool>()
}

/// `Rng::gen_range` on an inclusive range of `i32`: some number of the range.
/// The call panics on an empty range, which `requires` leaves out; of a range
/// that holds a number, the one that comes out lies between its ends.
#[verifier::external_body]
pub(crate) fn between(rng: &mut ThreadRng, low: i32, high: i32) -> (n: i32)
    requires
        low <= high,
    ensures
        low <= n <= high,
{
    rng.gen_range(low..=high)
}

} // verus!
