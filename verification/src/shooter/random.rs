//! What the game takes on trust from the random number generator.
//!
//! Random numbers come from the `rand` crate; nothing in this file is
//! proved. Each function here makes one call into that crate. A random
//! number is not a function of anything, so the contracts say only what
//! holds of every number that may come.

use vstd::prelude::*;

verus! {

/// The handle of the random number generator of a thread. Nothing is known
/// of what is inside.
#[verifier::external_type_specification]
#[verifier::external_body]
pub struct ExThreadRng(rand::rngs::ThreadRng);

/// Calls `rand::thread_rng`, which hands out the generator of the current
/// thread and seeds it from the operating system at its first use.
///
/// Nothing is claimed of the result. If the operating system cannot give a
/// seed, the call panics, whatever the game does.
#[verifier::external_body]
pub(crate) fn thread_rng() -> rand::rngs::ThreadRng {
    rand::thread_rng()
}

/// Calls `rand::Rng::gen_range` on 32-bit integers, which draws a number
/// from `low` up to, but not including, `high`, and panics if there is no
/// such number.
///
/// The contract claims that the number lies in that range, and nothing of
/// which one it is.
#[verifier::external_body]
pub(crate) fn gen_range(rng: &mut rand::rngs::ThreadRng, low: i32, high: i32) -> (n: i32)
    requires
        low < high,
    ensures
        low <= n < high,
{
    rand::Rng::gen_range(rng, low, high)
}

} // verus!
