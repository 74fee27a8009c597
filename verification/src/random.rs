use rand::Rng;
use vstd::prelude::*;

verus! {

/// Draws a number uniformly from `low..high` with `rand`'s thread-local
/// generator (`rand::Rng::gen_range` on a half-open range of `i64`).
/// The contract claims only what holds of every draw: the number lies in the
/// range.  `gen_range` panics on an empty range, which `requires` rules out.
#[verifier::external_body]
pub(crate) fn random_between(low: i64, high: i64) -> (r: i64)
    requires
        low < high,
    ensures
        low <= r < high,
{
    rand::thread_rng().gen_range(low..high)
}

} // verus!
