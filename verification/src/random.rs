//! The random source of the pipeline.

use vstd::prelude::*;

verus! {

/// `Rng::random_range` of the rand crate, on the generator of the calling
/// thread (`rand::rng`) and the inclusive range from `low` to `high`. It
/// panics on an empty range; on any other the value lies in the range.
#[verifier::external_body]
pub(crate) fn random_in(low: u64, high: u64) -> (value: u64)
    requires
        low <= high,
    ensures
        low <= value <= high,
{
    rand::Rng::random_range(&mut rand::rng(), low..=high)
}

} // verus!
