//! Random number engines: the kinds the explorer offers, seeding an engine of
//! a kind, drawing values from it, and the determinism check that compares two
//! streams drawn from the same seed.
use vstd::prelude::*;

use rand::rngs::ThreadRng;

use crate::rng::{
    chacha20_from_seed, chacha20_next_u64, chacha20_output, chacha20_state, chacha8_from_seed,
    chacha8_next_u64, chacha8_output, chacha8_state, pcg64_from_seed, pcg64_next_u64,
    pcg64_output, pcg64_state, random_u64, small_rng_from_seed, small_rng_next_u64,
    small_rng_output, small_rng_state, std_rng_from_seed, std_rng_next_u64, std_rng_output,
    std_rng_state, thread_next_u64, thread_rng, SeededChaCha20Rng, SeededChaCha8Rng, SeededPcg64,
    SeededSmallRng, SeededStdRng,
};

verus! {

/// The random number generators the explorer can drive.
#[derive(Clone, Copy, Debug, PartialEq, Eq, Structural)]
pub enum EngineKind {
    ThreadRng,
    StdRng,
    SmallRng,
    ChaCha8,
    ChaCha20,
    Pcg64,
}

/// Every engine kind, in the order the engine selectors list them.
pub open spec fn engine_kinds() -> Seq<EngineKind> {
    seq![
        EngineKind::ThreadRng,
        EngineKind::StdRng,
        EngineKind::SmallRng,
        EngineKind::ChaCha8,
        EngineKind::ChaCha20,
        EngineKind::Pcg64,
    ]
}

/// Every engine kind is offered by the selector, and none twice.
pub proof fn lemma_engine_kinds_complete(kind: EngineKind)
    ensures
        engine_kinds().contains(kind),
        engine_kinds().no_duplicates(),
{
    let s = engine_kinds();
    match kind {
        EngineKind::ThreadRng => assert(s[0] == kind),
        EngineKind::StdRng => assert(s[1] == kind),
        EngineKind::SmallRng => assert(s[2] == kind),
        EngineKind::ChaCha8 => assert(s[3] == kind),
        EngineKind::ChaCha20 => assert(s[4] == kind),
        EngineKind::Pcg64 => assert(s[5] == kind),
    }
}

impl EngineKind {
    /// All engine kinds, in selector order.
    pub fn all() -> (kinds: &'static [EngineKind])
        ensures
            kinds@ == engine_kinds(),
    {
        let kinds: &'static [EngineKind] = &[
            EngineKind::ThreadRng,
            EngineKind::StdRng,
            EngineKind::SmallRng,
            EngineKind::ChaCha8,
            EngineKind::ChaCha20,
            EngineKind::Pcg64,
        ];
        kinds
    }
}

/// The generator behind an engine.
enum Generator {
    Thread(ThreadRng),
    Std(SeededStdRng),
    Small(SeededSmallRng),
    ChaCha8(SeededChaCha8Rng),
    ChaCha20(SeededChaCha20Rng),
    Pcg64(SeededPcg64),
}

/// Whether engines of this kind are made from a seed: all but the
/// thread-local generator.
pub open spec fn is_seeded(kind: EngineKind) -> bool {
    kind != EngineKind::ThreadRng
}

/// The output at position `index` of a generator of a seeded kind made from
/// `seed`.
pub open spec fn seeded_output(kind: EngineKind, seed: u64, index: nat) -> u64 {
    match kind {
        EngineKind::ThreadRng => 0,
        EngineKind::StdRng => std_rng_output(seed, index),
        EngineKind::SmallRng => small_rng_output(seed, index, usize::BITS),
        EngineKind::ChaCha8 => chacha8_output(seed, index),
        EngineKind::ChaCha20 => chacha20_output(seed, index),
        EngineKind::Pcg64 => pcg64_output(seed, index),
    }
}

/// The first `n` outputs of a generator of a seeded kind made from `seed`.
pub open spec fn seeded_stream(kind: EngineKind, seed: u64, n: nat) -> Seq<u64> {
    Seq::new(n, |i: int| seeded_output(kind, seed, i as nat))
}

/// The wrapping sum of a sequence of outputs, taken in order.
pub open spec fn wrapping_total(values: Seq<u64>) -> u64
    decreases values.len(),
{
    if values.len() == 0 {
        0
    } else {
        wrapping_total(values.drop_last()).wrapping_add(values.last())
    }
}

/// The kind of generator behind an engine.
spec fn generator_kind(g: Generator) -> EngineKind {
    match g {
        Generator::Thread(_) => EngineKind::ThreadRng,
        Generator::Std(_) => EngineKind::StdRng,
        Generator::Small(_) => EngineKind::SmallRng,
        Generator::ChaCha8(_) => EngineKind::ChaCha8,
        Generator::ChaCha20(_) => EngineKind::ChaCha20,
        Generator::Pcg64(_) => EngineKind::Pcg64,
    }
}

/// A seeded generator made from `seed` sits at the position given by the
/// number of outputs recorded, and those outputs are the start of its seed's
/// stream.
spec fn follows_seed(g: Generator, seed: u64, drawn: Seq<u64>) -> bool {
    &&& match g {
        Generator::Thread(_) => true,
        Generator::Std(r) => std_rng_state(r) == (seed, drawn.len()),
        Generator::Small(r) => small_rng_state(r) == (seed, drawn.len()),
        Generator::ChaCha8(r) => chacha8_state(r) == (seed, drawn.len()),
        Generator::ChaCha20(r) => chacha20_state(r) == (seed, drawn.len()),
        Generator::Pcg64(r) => pcg64_state(r) == (seed, drawn.len()),
    }
    &&& is_seeded(generator_kind(g)) ==> drawn == seeded_stream(generator_kind(g), seed, drawn.len())
}

/// Takes the next output of a generator and records it.
fn advance(generator: &mut Generator, drawn: &mut Ghost<Seq<u64>>, seed: u64) -> (r: u64)
    requires
        follows_seed(*old(generator), seed, old(drawn)@),
    ensures
        follows_seed(*final(generator), seed, final(drawn)@),
        generator_kind(*final(generator)) == generator_kind(*old(generator)),
        final(drawn)@ == old(drawn)@.push(r),
        is_seeded(generator_kind(*old(generator))) ==> r == seeded_output(
            generator_kind(*old(generator)),
            seed,
            old(drawn)@.len(),
        ),
{
    let ghost kind = generator_kind(*generator);
    let ghost before = drawn@;
    let r = match generator {
        Generator::Thread(g) => thread_next_u64(g),
        Generator::Std(g) => std_rng_next_u64(g),
        Generator::Small(g) => small_rng_next_u64(g),
        Generator::ChaCha8(g) => chacha8_next_u64(g),
        Generator::ChaCha20(g) => chacha20_next_u64(g),
        Generator::Pcg64(g) => pcg64_next_u64(g),
    };
    proof {
        if is_seeded(kind) {
            assert(before.push(r) =~= seeded_stream(kind, seed, before.len() + 1));
            assert(before.push(r)[before.len() as int] == r);
        }
    }
    *drawn = Ghost(drawn@.push(r));
    r
}

/// A generator of one of the engine kinds, with the seed it was made from and
/// a record of the outputs it has given since.
pub struct Engine {
    generator: Generator,
    seed: u64,
    drawn: Ghost<Seq<u64>>,
}

impl Engine {
    /// The kind of this generator.
    pub closed spec fn kind_of(self) -> EngineKind {
        generator_kind(self.generator)
    }

    /// The seed this generator was made from (ignored by the thread-local
    /// generator).
    pub closed spec fn seed_of(self) -> u64 {
        self.seed
    }

    /// The outputs this generator has given since it was made, in order.
    pub closed spec fn outputs(self) -> Seq<u64> {
        self.drawn@
    }

    /// Well-formedness: the generator follows its seed's stream. Every
    /// engine made by `reseed_for_kind` is well formed, and the methods keep it.
    pub closed spec fn wf(self) -> bool {
        follows_seed(self.generator, self.seed, self.drawn@)
    }

    /// The kind of this generator.
    pub fn kind(&self) -> (k: EngineKind)
        ensures
            k == self.kind_of(),
    {
        match &self.generator {
            Generator::Thread(_) => EngineKind::ThreadRng,
            Generator::Std(_) => EngineKind::StdRng,
            Generator::Small(_) => EngineKind::SmallRng,
            Generator::ChaCha8(_) => EngineKind::ChaCha8,
            Generator::ChaCha20(_) => EngineKind::ChaCha20,
            Generator::Pcg64(_) => EngineKind::Pcg64,
        }
    }

    /// The next 64-bit output of the generator. For a seeded kind it is the
    /// output at the current position of the seed's stream; the output joins
    /// the record, and kind and seed stay.
    pub fn next_u64(&mut self) -> (r: u64)
        requires
            old(self).wf(),
        ensures
            final(self).wf(),
            final(self).kind_of() == old(self).kind_of(),
            final(self).seed_of() == old(self).seed_of(),
            final(self).outputs() == old(self).outputs().push(r),
            is_seeded(old(self).kind_of()) ==> r == seeded_output(
                old(self).kind_of(),
                old(self).seed_of(),
                old(self).outputs().len(),
            ),
            is_seeded(old(self).kind_of()) ==> final(self).outputs() == seeded_stream(
                old(self).kind_of(),
                old(self).seed_of(),
                final(self).outputs().len(),
            ),
    {
        advance(&mut self.generator, &mut self.drawn, self.seed)
    }

    /// Draws `count` outputs, in order: they are the next `count` outputs of
    /// the generator, for a seeded kind those of its seed's stream.
    pub fn draw(&mut self, count: usize) -> (values: Vec<u64>)
        requires
            old(self).wf(),
        ensures
            final(self).wf(),
            values@.len() == count,
            final(self).kind_of() == old(self).kind_of(),
            final(self).seed_of() == old(self).seed_of(),
            final(self).outputs() == old(self).outputs() + values@,
            is_seeded(old(self).kind_of()) ==> final(self).outputs() == seeded_stream(
                old(self).kind_of(),
                old(self).seed_of(),
                final(self).outputs().len(),
            ),
    {
        let mut values: Vec<u64> = Vec::new();
        let mut i: usize = 0;
        while i < count
            invariant
                i <= count,
                values@.len() == i,
                self.wf(),
                self.kind_of() == old(self).kind_of(),
                self.seed_of() == old(self).seed_of(),
                self.outputs() == old(self).outputs() + values@,
                is_seeded(self.kind_of()) ==> self.outputs() == seeded_stream(
                    self.kind_of(),
                    self.seed_of(),
                    self.outputs().len(),
                ),
            decreases count - i,
        {
            let v = self.next_u64();
            values.push(v);
            assert(self.outputs() =~= old(self).outputs() + values@);
            i += 1;
        }
        values
    }

    /// Draws `count` outputs and returns their wrapping sum; this is the work
    /// that the benchmark times.
    pub fn consume(&mut self, count: usize) -> (total: u64)
        requires
            old(self).wf(),
        ensures
            final(self).wf(),
            final(self).kind_of() == old(self).kind_of(),
            final(self).seed_of() == old(self).seed_of(),
            final(self).outputs().len() == old(self).outputs().len() + count,
            final(self).outputs().take(old(self).outputs().len() as int) == old(self).outputs(),
            total == wrapping_total(final(self).outputs().skip(old(self).outputs().len() as int)),
            is_seeded(old(self).kind_of()) ==> final(self).outputs() == seeded_stream(
                old(self).kind_of(),
                old(self).seed_of(),
                final(self).outputs().len(),
            ),
    {
        let ghost start = self.outputs();
        let mut total: u64 = 0;
        let mut i: usize = 0;
        proof {
            assert(self.outputs().skip(start.len() as int) =~= Seq::<u64>::empty());
            assert(self.outputs().take(start.len() as int) =~= start);
        }
        while i < count
            invariant
                i <= count,
                start == old(self).outputs(),
                self.wf(),
                self.kind_of() == old(self).kind_of(),
                self.seed_of() == old(self).seed_of(),
                self.outputs().len() == start.len() + i,
                self.outputs().take(start.len() as int) == start,
                total == wrapping_total(self.outputs().skip(start.len() as int)),
                is_seeded(self.kind_of()) ==> self.outputs() == seeded_stream(
                    self.kind_of(),
                    self.seed_of(),
                    self.outputs().len(),
                ),
            decreases count - i,
        {
            let ghost before = self.outputs();
            let v = self.next_u64();
            total = total.wrapping_add(v);
            proof {
                let fresh = self.outputs().skip(start.len() as int);
                assert(fresh.drop_last() =~= before.skip(start.len() as int));
                assert(fresh.last() == v);
                assert(self.outputs().take(start.len() as int) =~= before.take(start.len() as int));
            }
            i += 1;
        }
        total
    }
}

/// A fresh generator of the given kind: the thread-local generator for
/// `ThreadRng`, which takes no seed, else the kind's generator made by
/// `seed_from_u64(seed)`.
pub fn reseed_for_kind(kind: EngineKind, seed: u64) -> (engine: Engine)
    ensures
        engine.wf(),
        engine.kind_of() == kind,
        engine.seed_of() == seed,
        engine.outputs().len() == 0,
{
    let generator = match kind {
        EngineKind::ThreadRng => Generator::Thread(thread_rng()),
        EngineKind::StdRng => Generator::Std(std_rng_from_seed(seed)),
        EngineKind::SmallRng => Generator::Small(small_rng_from_seed(seed)),
        EngineKind::ChaCha8 => Generator::ChaCha8(chacha8_from_seed(seed)),
        EngineKind::ChaCha20 => Generator::ChaCha20(chacha20_from_seed(seed)),
        EngineKind::Pcg64 => Generator::Pcg64(pcg64_from_seed(seed)),
    };
    let engine = Engine { generator, seed, drawn: Ghost(Seq::empty()) };
    assert(Seq::<u64>::empty() =~= seeded_stream(kind, seed, 0));
    engine
}

/// A fresh random seed from the thread-local generator.
pub fn generate_seed() -> u64 {
    let mut rng = thread_rng();
    random_u64(&mut rng)
}

/// Two streams drawn from two generators made alike, and whether they agree.
pub struct StreamComparison {
    pub stream_a: Vec<u64>,
    pub stream_b: Vec<u64>,
    pub streams_match: bool,
}

/// The determinism check: two generators of `kind` are made from `seed`,
/// `len` outputs are drawn from each, and the streams are compared.
pub fn compare_streams(kind: EngineKind, seed: u64, len: usize) -> (c: StreamComparison)
    ensures
        c.stream_a@.len() == len,
        c.stream_b@.len() == len,
        c.streams_match <==> c.stream_a@ == c.stream_b@,
        is_seeded(kind) ==> c.stream_a@ == seeded_stream(kind, seed, len as nat),
        is_seeded(kind) ==> c.stream_b@ == seeded_stream(kind, seed, len as nat),
        is_seeded(kind) ==> c.streams_match,
{
    let mut first = reseed_for_kind(kind, seed);
    let mut second = reseed_for_kind(kind, seed);
    let stream_a = first.draw(len);
    let stream_b = second.draw(len);
    proof {
        if is_seeded(kind) {
            assert(stream_a@ =~= seeded_stream(kind, seed, len as nat));
            assert(stream_b@ =~= seeded_stream(kind, seed, len as nat));
        }
    }
    let streams_match = stream_a == stream_b;
    proof {
        if streams_match {
            assert(stream_a@ =~= stream_b@);
        }
    }
    StreamComparison { stream_a, stream_b, streams_match }
}

} // verus!
