//! Random draws. At most the range of a draw is promised; the functions that use
//! one state what holds whatever it gave.

use rand::Rng;
use vstd::prelude::*;

verus! {

/// A uniformly random `u32`.
///
/// Trusted: calls `rand::random::<u32>()`, which draws `next_u32` from the thread-local
/// generator; no clause is stated of the result, since it rests on chance.
#[verifier::external_body]
pub(crate) fn random_u32() -> u32 {
    rand::random::<u32>()
}

/// A uniformly random index below `n`.
///
/// Trusted: calls `rand::Rng::gen_range(0..n)` on the thread-local generator. In rand
/// 0.8 the range `0..n` is sampled as `0..=n - 1` and only an empty range panics, so
/// `n > 0` is required and the result lies below `n`; which index comes rests on chance.
#[verifier::external_body]
pub(crate) fn random_below(n: usize) -> (r: usize)
    requires
        n > 0,
    ensures
        r < n,
{
    rand::thread_rng().gen_range(0..n)
}

} // verus!
