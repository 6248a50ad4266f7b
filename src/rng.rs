use bevy_turborand::{DelegatedRng, GlobalRng};
use vstd::prelude::*;

verus! {

#[verifier::external_type_specification]
#[verifier::external_body]
pub struct ExGlobalRng(GlobalRng);

/// Relies on `DelegatedRng::i64` of bevy_turborand (turborand's `TurboRand::i64`):
/// a value drawn from the inclusive range `lo..=hi`, which panics only when the
/// range is empty.
#[verifier::external_body]
pub(crate) fn random_in(rng: &mut GlobalRng, lo: i64, hi: i64) -> (r: i64)
    requires
        lo <= hi,
    ensures
        lo <= r <= hi,
{
    rng.i64(lo..=hi)
}

/// Relies on `DelegatedRng::sample` of bevy_turborand (turborand's
/// `TurboRand::sample`): one item of the slice, and `None` only for an empty one.
#[verifier::external_body]
pub(crate) fn sample<T: Copy>(rng: &mut GlobalRng, list: &[T]) -> (r: Option<T>)
    ensures
        list@.len() == 0 <==> r is None,
        r matches Some(x) ==> list@.contains(x),
{
    rng.sample(list).copied()
}

} // verus!
