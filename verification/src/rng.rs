//! The calls into the `rand`, `rand_chacha` and `rand_pcg` crates. Their
//! results depend on chance, so each states only what holds of every outcome
//! (or nothing, where nothing does).
use vstd::prelude::*;

use rand::distr::weighted::Error as WeightError;
use rand::distr::weighted::WeightedIndex;
use rand::distr::Distribution;
use rand::rngs::{SmallRng, StdRng, ThreadRng};
use rand::seq::{IndexedRandom, SliceRandom};
use rand::{Rng, RngExt, SeedableRng};
use rand_chacha::{ChaCha20Rng, ChaCha8Rng};
use rand_pcg::Pcg64;

verus! {

#[verifier::external_type_specification]
#[verifier::external_body]
pub struct ExThreadRng(ThreadRng);

/// A `WeightedIndex<u128>` distribution, held in a private field; its model is
/// the weights it was made with (`weighted_index_weights`).
#[verifier::external_body]
pub struct WeightedChoice {
    dist: WeightedIndex<u128>,
}

#[verifier::external_type_specification]
#[verifier::external_body]
pub struct ExWeightError(WeightError);

/// `rand::rng`: a handle on the thread-local generator.
#[verifier::external_body]
pub(crate) fn thread_rng() -> ThreadRng {
    rand::rng()
}

/// `RngExt::random::<bool>` on the thread-local generator; any value may come.
#[verifier::external_body]
pub(crate) fn random_bool(rng: &mut ThreadRng) -> bool {
    rng.random::<bool>()
}

/// `RngExt::random::<u8>`; any value may come.
#[verifier::external_body]
pub(crate) fn random_u8(rng: &mut ThreadRng) -> u8 {
    rng.random::<u8>()
}

/// `RngExt::random::<i8>`; any value may come.
#[verifier::external_body]
pub(crate) fn random_i8(rng: &mut ThreadRng) -> i8 {
    rng.random::<i8>()
}

/// `RngExt::random::<u32>`; any value may come.
#[verifier::external_body]
pub(crate) fn random_u32(rng: &mut ThreadRng) -> u32 {
    rng.random::<u32>()
}

/// `RngExt::random::<i32>`; any value may come.
#[verifier::external_body]
pub(crate) fn random_i32(rng: &mut ThreadRng) -> i32 {
    rng.random::<i32>()
}

/// `RngExt::random::<u64>`; any value may come.
#[verifier::external_body]
pub(crate) fn random_u64(rng: &mut ThreadRng) -> u64 {
    rng.random::<u64>()
}

/// `RngExt::random::<i64>`; any value may come.
#[verifier::external_body]
pub(crate) fn random_i64(rng: &mut ThreadRng) -> i64 {
    rng.random::<i64>()
}

/// `RngExt::random::<u128>`; any value may come.
#[verifier::external_body]
pub(crate) fn random_u128(rng: &mut ThreadRng) -> u128 {
    rng.random::<u128>()
}

/// `RngExt::random::<i128>`; any value may come.
#[verifier::external_body]
pub(crate) fn random_i128(rng: &mut ThreadRng) -> i128 {
    rng.random::<i128>()
}

/// `RngExt::random_range` over `0..n`. The claim: the value lies in the range
/// (the call panics on an empty range, hence `n > 0`).
#[verifier::external_body]
pub(crate) fn random_below(rng: &mut ThreadRng, n: usize) -> (r: usize)
    requires
        n > 0,
    ensures
        r < n,
{
    rng.random_range(0..n)
}

/// `RngExt::random_range` over `start..=end`. The claim: the value lies in the
/// range (the call panics when `start > end`).
#[verifier::external_body]
pub(crate) fn random_u32_between(rng: &mut ThreadRng, start: u32, end: u32) -> (r: u32)
    requires
        start <= end,
    ensures
        start <= r <= end,
{
    rng.random_range(start..=end)
}

/// `IndexedRandom::choose` on a slice of strings, the choice cloned. The
/// claim, as the source shows: `None` exactly for an empty slice, else one of
/// its items.
#[verifier::external_body]
pub(crate) fn choose_string(items: &[String], rng: &mut ThreadRng) -> (r: Option<String>)
    ensures
        r is None <==> items@.len() == 0,
        r matches Some(s) ==> exists|i: int| 0 <= i < items@.len() && items@[i] == s,
{
    items.choose(rng).cloned()
}

/// Whether `idx` picks distinct positions of a sequence of length `len`.
pub open spec fn distinct_positions(idx: Seq<int>, len: int) -> bool {
    &&& forall|k: int| 0 <= k < idx.len() ==> 0 <= #[trigger] idx[k] < len
    &&& forall|k1: int, k2: int|
        0 <= k1 < idx.len() && 0 <= k2 < idx.len() && k1 != k2 ==> idx[k1] != idx[k2]
}

/// Whether `picked` holds the items of `items` at distinct positions.
pub open spec fn picked_without_repetition(picked: Seq<String>, items: Seq<String>) -> bool {
    exists|idx: Seq<int>|
        {
            &&& idx.len() == picked.len()
            &&& distinct_positions(idx, items.len() as int)
            &&& forall|k: int| 0 <= k < picked.len() ==> #[trigger] picked[k] == items[idx[k]]
        }
}

/// `IndexedRandom::sample` on a slice of strings, the sample cloned into a
/// vector. The claim, as the source shows: `min(amount, len)` items, taken at
/// distinct positions of the slice.
#[verifier::external_body]
pub(crate) fn sample_strings(items: &[String], amount: usize, rng: &mut ThreadRng) -> (r: Vec<
    String,
>)
    ensures
        r@.len() == if amount < items@.len() {
            amount as int
        } else {
            items@.len() as int
        },
        picked_without_repetition(r@, items@),
{
    items.sample(rng, amount).cloned().collect()
}

/// `SliceRandom::shuffle` on a vector. The claim, as the source shows (a
/// sequence of swaps): the vector ends as a permutation of itself.
#[verifier::external_body]
pub(crate) fn shuffle<T>(v: &mut Vec<T>, rng: &mut ThreadRng)
    ensures
        final(v)@.len() == old(v)@.len(),
        final(v)@.to_multiset() == old(v)@.to_multiset(),
{
    v.shuffle(rng)
}

/// The sum of a sequence of weights.
pub open spec fn weight_sum(w: Seq<u128>) -> int
    decreases w.len(),
{
    if w.len() == 0 {
        0
    } else {
        weight_sum(w.drop_last()) + w.last()
    }
}

/// The weights a `WeightedIndex<u128>` was made with.
pub uninterp spec fn weighted_index_weights(d: WeightedChoice) -> Seq<u128>;

/// `WeightedIndex::<u128>::new`. The claim, as the source shows: it fails
/// exactly when the weights are empty, sum to zero, or their sum overflows
/// `u128`; on success the distribution holds the given weights.
#[verifier::external_body]
pub(crate) fn weighted_index_new(weights: &Vec<u128>) -> (r: Result<WeightedChoice, WeightError>)
    ensures
        r is Ok <==> (weights@.len() > 0 && 0 < weight_sum(weights@) <= u128::MAX),
        r matches Ok(d) ==> weighted_index_weights(d) == weights@,
{
    WeightedIndex::new(weights).map(|dist| WeightedChoice { dist })
}

/// `Distribution::sample` for a `WeightedIndex<u128>`. The claim, as the
/// source shows (a search of the cumulative weights): the index is that of a
/// weight that is not zero.
#[verifier::external_body]
pub(crate) fn weighted_index_sample(d: &WeightedChoice, rng: &mut ThreadRng) -> (r: usize)
    ensures
        r < weighted_index_weights(*d).len(),
        weighted_index_weights(*d)[r as int] > 0,
{
    d.dist.sample(rng)
}

/// `Rng::next_u64` on the thread-local generator; any value may come.
#[verifier::external_body]
pub(crate) fn thread_next_u64(rng: &mut ThreadRng) -> u64 {
    rng.next_u64()
}

/// A `StdRng` held in a private field, modelled by the seed it was made from
/// and the number of outputs it has given (`std_rng_state`).
#[verifier::external_body]
pub struct SeededStdRng {
    rng: StdRng,
}

/// The seed a `SeededStdRng` was made from and the number of outputs it has
/// given since.
pub uninterp spec fn std_rng_state(g: SeededStdRng) -> (u64, nat);

/// The output at position `index` (counting from 0) of a `StdRng` seeded with
/// `seed_from_u64(seed)`; a function of the seed and position alone: the
/// seed is expanded by `seed_from_u64` and fed to the 12-round ChaCha
/// generator of the `chacha20` crate. `StdRng` is documented as not portable
/// (its algorithm may change in later versions of `rand`); in the version used
/// here the output is fixed by the seed and position.
pub uninterp spec fn std_rng_output(seed: u64, index: nat) -> u64;

/// `StdRng::seed_from_u64`. The claim: a generator made from `seed` that has
/// given no output yet.
#[verifier::external_body]
pub(crate) fn std_rng_from_seed(seed: u64) -> (g: SeededStdRng)
    ensures
        std_rng_state(g) == (seed, 0nat),
{
    SeededStdRng { rng: StdRng::seed_from_u64(seed) }
}

/// `Rng::next_u64` on a `StdRng`. The claim: the value is the output at the
/// generator's current position for its seed, and the position advances by one.
#[verifier::external_body]
pub(crate) fn std_rng_next_u64(g: &mut SeededStdRng) -> (r: u64)
    ensures
        std_rng_state(*final(g)) == (std_rng_state(*old(g)).0, std_rng_state(*old(g)).1 + 1),
        r == std_rng_output(std_rng_state(*old(g)).0, std_rng_state(*old(g)).1),
{
    g.rng.next_u64()
}

/// A `SmallRng` held in a private field, modelled by the seed it was made from
/// and the number of outputs it has given (`small_rng_state`).
#[verifier::external_body]
pub struct SeededSmallRng {
    rng: SmallRng,
}

/// The seed a `SeededSmallRng` was made from and the number of outputs it has
/// given since.
pub uninterp spec fn small_rng_state(g: SeededSmallRng) -> (u64, nat);

/// The output at position `index` (counting from 0) of a `SmallRng` seeded
/// with `seed_from_u64(seed)` on a target whose pointers have `pointer_bits`
/// bits: the generator is Xoshiro256++ on 64-bit targets and Xoshiro128++ on
/// narrower ones, each deterministic for a given seed.
pub uninterp spec fn small_rng_output(seed: u64, index: nat, pointer_bits: u32) -> u64;

/// `SmallRng::seed_from_u64`. The claim: a generator made from `seed` that has
/// given no output yet.
#[verifier::external_body]
pub(crate) fn small_rng_from_seed(seed: u64) -> (g: SeededSmallRng)
    ensures
        small_rng_state(g) == (seed, 0nat),
{
    SeededSmallRng { rng: SmallRng::seed_from_u64(seed) }
}

/// `Rng::next_u64` on a `SmallRng`. The claim: the value is the output at the
/// generator's current position for its seed, and the position advances by one.
#[verifier::external_body]
pub(crate) fn small_rng_next_u64(g: &mut SeededSmallRng) -> (r: u64)
    ensures
        small_rng_state(*final(g)) == (small_rng_state(*old(g)).0, small_rng_state(*old(g)).1 + 1),
        r == small_rng_output(small_rng_state(*old(g)).0, small_rng_state(*old(g)).1, usize::BITS),
{
    g.rng.next_u64()
}

/// A `ChaCha8Rng` held in a private field, modelled by the seed it was made from
/// and the number of outputs it has given (`chacha8_state`).
#[verifier::external_body]
pub struct SeededChaCha8Rng {
    rng: ChaCha8Rng,
}

/// The seed a `SeededChaCha8Rng` was made from and the number of outputs it has
/// given since.
pub uninterp spec fn chacha8_state(g: SeededChaCha8Rng) -> (u64, nat);

/// The output at position `index` (counting from 0) of a `ChaCha8Rng` seeded with
/// `seed_from_u64(seed)`; a function of the seed and position alone (documented by `rand_chacha` as deterministic and portable).
pub uninterp spec fn chacha8_output(seed: u64, index: nat) -> u64;

/// `ChaCha8Rng::seed_from_u64`. The claim: a generator made from `seed` that has
/// given no output yet.
#[verifier::external_body]
pub(crate) fn chacha8_from_seed(seed: u64) -> (g: SeededChaCha8Rng)
    ensures
        chacha8_state(g) == (seed, 0nat),
{
    SeededChaCha8Rng { rng: ChaCha8Rng::seed_from_u64(seed) }
}

/// `Rng::next_u64` on a `ChaCha8Rng`. The claim: the value is the output at the
/// generator's current position for its seed, and the position advances by one.
#[verifier::external_body]
pub(crate) fn chacha8_next_u64(g: &mut SeededChaCha8Rng) -> (r: u64)
    ensures
        chacha8_state(*final(g)) == (chacha8_state(*old(g)).0, chacha8_state(*old(g)).1 + 1),
        r == chacha8_output(chacha8_state(*old(g)).0, chacha8_state(*old(g)).1),
{
    g.rng.next_u64()
}

/// A `ChaCha20Rng` held in a private field, modelled by the seed it was made from
/// and the number of outputs it has given (`chacha20_state`).
#[verifier::external_body]
pub struct SeededChaCha20Rng {
    rng: ChaCha20Rng,
}

/// The seed a `SeededChaCha20Rng` was made from and the number of outputs it has
/// given since.
pub uninterp spec fn chacha20_state(g: SeededChaCha20Rng) -> (u64, nat);

/// The output at position `index` (counting from 0) of a `ChaCha20Rng` seeded with
/// `seed_from_u64(seed)`; a function of the seed and position alone (documented by `rand_chacha` as deterministic and portable).
pub uninterp spec fn chacha20_output(seed: u64, index: nat) -> u64;

/// `ChaCha20Rng::seed_from_u64`. The claim: a generator made from `seed` that has
/// given no output yet.
#[verifier::external_body]
pub(crate) fn chacha20_from_seed(seed: u64) -> (g: SeededChaCha20Rng)
    ensures
        chacha20_state(g) == (seed, 0nat),
{
    SeededChaCha20Rng { rng: ChaCha20Rng::seed_from_u64(seed) }
}

/// `Rng::next_u64` on a `ChaCha20Rng`. The claim: the value is the output at the
/// generator's current position for its seed, and the position advances by one.
#[verifier::external_body]
pub(crate) fn chacha20_next_u64(g: &mut SeededChaCha20Rng) -> (r: u64)
    ensures
        chacha20_state(*final(g)) == (chacha20_state(*old(g)).0, chacha20_state(*old(g)).1 + 1),
        r == chacha20_output(chacha20_state(*old(g)).0, chacha20_state(*old(g)).1),
{
    g.rng.next_u64()
}

/// A `Pcg64` held in a private field, modelled by the seed it was made from
/// and the number of outputs it has given (`pcg64_state`).
#[verifier::external_body]
pub struct SeededPcg64 {
    rng: Pcg64,
}

/// The seed a `SeededPcg64` was made from and the number of outputs it has
/// given since.
pub uninterp spec fn pcg64_state(g: SeededPcg64) -> (u64, nat);

/// The output at position `index` (counting from 0) of a `Pcg64` seeded with
/// `seed_from_u64(seed)`; a function of the seed and position alone (documented by `rand` as a portable generator).
pub uninterp spec fn pcg64_output(seed: u64, index: nat) -> u64;

/// `Pcg64::seed_from_u64`. The claim: a generator made from `seed` that has
/// given no output yet.
#[verifier::external_body]
pub(crate) fn pcg64_from_seed(seed: u64) -> (g: SeededPcg64)
    ensures
        pcg64_state(g) == (seed, 0nat),
{
    SeededPcg64 { rng: Pcg64::seed_from_u64(seed) }
}

/// `Rng::next_u64` on a `Pcg64`. The claim: the value is the output at the
/// generator's current position for its seed, and the position advances by one.
#[verifier::external_body]
pub(crate) fn pcg64_next_u64(g: &mut SeededPcg64) -> (r: u64)
    ensures
        pcg64_state(*final(g)) == (pcg64_state(*old(g)).0, pcg64_state(*old(g)).1 + 1),
        r == pcg64_output(pcg64_state(*old(g)).0, pcg64_state(*old(g)).1),
{
    g.rng.next_u64()
}

} // verus!
