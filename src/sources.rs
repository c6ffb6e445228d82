//! The library's only contact with randomness.

use rand::seq::SliceRandom;
use rand::Rng;
use vstd::prelude::*;

verus! {

/// Relies on rand's `Rng::gen_range` over `min..=max` on the thread-local
/// generator: the value lies in the inclusive range. It panics on an empty
/// range, which `requires` leaves out.
#[verifier::external_body]
pub(crate) fn random_between(min: i64, max: i64) -> (r: i64)
    requires
        min <= max,
    ensures
        min <= r <= max,
{
    rand::thread_rng().gen_range(min..=max)
}

/// Relies on rand's `SliceRandom::shuffle` on the thread-local generator: it
/// only swaps elements, so the result is a permutation of the input.
#[verifier::external_body]
pub(crate) fn shuffle<T>(v: &mut Vec<T>)
    ensures
        final(v)@.len() == old(v)@.len(),
        final(v)@.to_multiset() == old(v)@.to_multiset(),
{
    v.shuffle(&mut rand::thread_rng())
}

/// Draws an index below `len`, uniformly for every length below `i64::MAX`.
pub(crate) fn random_index(len: usize) -> (r: usize)
    requires
        len > 0,
    ensures
        r < len,
{
    let last: usize = len - 1;
    let top: i64 = if last as u64 > i64::MAX as u64 {
        i64::MAX
    } else {
        last as i64
    };
    let k = random_between(0, top);
    k as usize
}

} // verus!
