//! The source of randomness: the thread-local generator of the `rand`
//! crate. Nothing here is proved; each contract states what the crate's
//! source shows.

use vstd::prelude::*;
use rand::Rng;

verus! {

/// The thread-local generator of `rand`. Its state is hidden from the
/// proofs.
#[verifier::external_type_specification]
#[verifier::external_body]
pub struct ExThreadRng(rand::ThreadRng);

/// `rand::thread_rng`: hands out the calling thread's generator, seeded by
/// the system. Nothing is claimed of the generator. The call panics where the
/// system has no entropy to seed it with.
pub assume_specification[ rand::thread_rng ]() -> (rng: rand::ThreadRng);

/// `rand::Rng::gen_range` on `usize`: a number drawn from `low` up to, but
/// not including, `high`. The crate's source computes it as `low` plus a
/// remainder modulo `high - low`, and panics unless `low < high`. Which
/// number comes out is left open. After a fixed amount of output the
/// generator seeds itself anew, so a draw can panic as `rand::thread_rng`
/// does, where the system has no entropy left to give.
#[verifier::external_body]
pub(crate) fn draw_between(rng: &mut rand::ThreadRng, low: usize, high: usize) -> (i: usize)
    requires
        low < high,
    ensures
        low <= i < high,
{
    rng.gen_range(low, high)
}

} // verus!
