//! The random source: the thread-local generator of the `rand` crate.

use rand::rngs::ThreadRng;
use rand::Rng;
use vstd::prelude::*;

verus! {

/// `rand::rngs::ThreadRng`, a handle to the generator of the current thread.
/// Proofs see nothing inside it.
#[verifier::external_type_specification]
#[verifier::external_body]
pub struct ExThreadRng(ThreadRng);

/// `<ThreadRng as Clone>::clone`: another handle to the same generator.
/// Nothing is claimed of the copy.
pub assume_specification[ <ThreadRng as Clone>::clone ](rng: &ThreadRng) -> (copy: ThreadRng);

/// `rand::Rng::gen_range` on the inclusive range `low..=high` of `i64`. The
/// outside function panics on an empty range, hence the `requires`; whatever
/// it draws lies in the range, and that is all the contract claims.
#[verifier::external_body]
pub(crate) fn uniform(rng: &mut ThreadRng, low: i64, high: i64) -> (drawn: i64)
    requires
        low <= high,
    ensures
        low <= drawn <= high,
{
    rng.gen_range(low..=high)
}

} // verus!
