//! The random source of the mutator and the calls made into `rand`.
use rand::distr::weighted::WeightedIndex;
use rand::distr::Distribution;
use rand::rngs::StdRng;
use rand::seq::SliceRandom;
use rand::Rng;
use vstd::prelude::*;

verus! {

/// The standard generator of `rand`; its state is opaque here.
#[verifier::external_type_specification]
#[verifier::external_body]
pub struct ExStdRng(StdRng);

/// `Rng::random_range` over `lo..hi`: a value that is at least `lo` and below
/// `hi` (the call panics on an empty range, which `requires` rules out).
#[verifier::external_body]
pub(crate) fn rng_random_range(rng: &mut StdRng, lo: u64, hi: u64) -> (r: u64)
    requires
        lo < hi,
    ensures
        lo <= r < hi,
{
    rng.random_range(lo..hi)
}

/// `Rng::random_ratio`: true with probability `numerator / denominator`;
/// its documentation promises `false` for a zero numerator and `true` when
/// the numerator equals the denominator. It panics on a zero denominator or
/// a numerator above the denominator, which `requires` rules out.
#[verifier::external_body]
pub(crate) fn rng_random_ratio(rng: &mut StdRng, numerator: u32, denominator: u32) -> (r: bool)
    requires
        0 < denominator,
        numerator <= denominator,
    ensures
        numerator == 0 ==> !r,
        numerator == denominator ==> r,
{
    rng.random_ratio(numerator, denominator)
}

/// `Rng::random::<bool>`: a fair coin; nothing is promised of the outcome.
#[verifier::external_body]
pub(crate) fn rng_random_bool(rng: &mut StdRng) -> bool {
    rng.random::<bool>()
}

/// `Rng::random::<u64>()`: any 64-bit value; nothing is promised of it.
#[verifier::external_body]
pub(crate) fn rng_random_u64(rng: &mut StdRng) -> u64 {
    rng.random::<u64>()
}

/// `SliceRandom::partial_shuffle` on the whole vector: the source only swaps
/// elements of the slice, so the vector stays a permutation of itself, and
/// the chosen part it returns is the tail of the vector after the call that
/// holds `min(amount, len)` elements.
#[verifier::external_body]
pub(crate) fn rng_partial_shuffle(rng: &mut StdRng, v: &mut Vec<u8>, amount: usize) -> (chosen:
    Vec<u8>)
    ensures
        final(v)@.len() == old(v)@.len(),
        final(v)@.to_multiset() == old(v)@.to_multiset(),
        chosen@ == final(v)@.subrange(
            if amount < old(v)@.len() {
                old(v)@.len() - amount
            } else {
                0
            },
            old(v)@.len() as int,
        ),
{
    let (chosen, _) = v.as_mut_slice().partial_shuffle(rng, amount);
    chosen.to_vec()
}

/// `rand::seq::index::sample`: exactly `amount` distinct indices below
/// `length`. It panics when `amount > length`, and (in debug builds) when
/// `amount == length` for a `length` above `u32::MAX`, where it samples by
/// rejection; `requires` rules both out.
#[verifier::external_body]
pub(crate) fn rng_sample_indices(rng: &mut StdRng, length: usize, amount: usize) -> (idx: Vec<
    usize,
>)
    requires
        amount < length || (amount == length && length <= u32::MAX),
    ensures
        idx@.len() == amount,
        idx@.no_duplicates(),
        forall|i: int| 0 <= i < idx@.len() ==> #[trigger] idx@[i] < length,
{
    rand::seq::index::sample(rng, length, amount).into_vec()
}

/// `WeightedIndex::new` over three weights, then `sample`: the source picks
/// the index `i` for which the drawn value lies between the cumulative
/// weights before and at `i`, so the index is below three and never one of
/// weight zero. `new` fails on a zero total or an overflowing sum, which
/// `requires` rules out.
#[verifier::external_body]
pub(crate) fn rng_weighted_index(rng: &mut StdRng, weights: [u8; 3]) -> (i: usize)
    requires
        0 < weights[0] + weights[1] + weights[2] <= u8::MAX,
    ensures
        i < 3,
        weights[i as int] > 0,
{
    WeightedIndex::new(weights).unwrap().sample(rng)
}

} // verus!
