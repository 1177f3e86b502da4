use vstd::prelude::*;

use rand::rngs::StdRng;
use rand::Rng;

verus! {

/// The injected random source of every encounter and duel.
#[verifier::external_type_specification]
#[verifier::external_body]
pub struct ExStdRng(StdRng);

/// Relies on rand's `Rng::random_range` over `lo..=hi`: a value in that
/// inclusive range (the range is non-empty, so it does not panic).
#[verifier::external_body]
pub(crate) fn roll(rng: &mut StdRng, lo: i32, hi: i32) -> (r: i32)
    requires
        lo <= hi,
    ensures
        lo <= r <= hi,
{
    rng.random_range(lo..=hi)
}

} // verus!
