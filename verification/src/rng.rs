use vstd::prelude::*;
use rand::Rng;

verus! {

/// Relies on rand::Rng::gen_range, called on the thread-local generator from
/// rand::thread_rng, with the half-open range `lo..hi`: the sample lies in
/// `[lo, hi)`. The call panics only on an empty range, which the precondition
/// rules out. Nothing more is assumed of the sample: it is random, so the
/// contract holds of every outcome.
#[verifier::external_body]
pub(crate) fn random_in_range(lo: u64, hi: u64) -> (r: u64)
    requires
        lo < hi,
    ensures
        lo <= r < hi,
{
    rand::thread_rng().gen_range(lo..hi)
}

} // verus!
