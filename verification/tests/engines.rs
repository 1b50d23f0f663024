use rand::{Rng, SeedableRng};
use rand_explorer::engine::{compare_streams, generate_seed, reseed_for_kind, EngineKind};

#[test]
fn reseeded_engines_have_their_kind() {
    for kind in EngineKind::all() {
        let engine = reseed_for_kind(*kind, 7);
        assert_eq!(engine.kind(), *kind);
    }
}

#[test]
fn seeded_engines_repeat_their_stream() {
    for kind in EngineKind::all().iter().filter(|k| **k != EngineKind::ThreadRng) {
        let comparison = compare_streams(*kind, 42, 32);
        assert_eq!(comparison.stream_a.len(), 32);
        assert_eq!(comparison.stream_b.len(), 32);
        assert_eq!(comparison.stream_a, comparison.stream_b);
        assert!(comparison.streams_match);
    }
}

#[test]
fn thread_rng_streams_differ() {
    let comparison = compare_streams(EngineKind::ThreadRng, 42, 32);
    assert_eq!(comparison.stream_a.len(), 32);
    assert!(!comparison.streams_match);
    assert_ne!(comparison.stream_a, comparison.stream_b);
}

#[test]
fn different_seeds_give_different_streams() {
    let mut a = reseed_for_kind(EngineKind::ChaCha20, 1);
    let mut b = reseed_for_kind(EngineKind::ChaCha20, 2);
    assert_ne!(a.draw(8), b.draw(8));
}

#[test]
fn draw_continues_after_consume() {
    let mut a = reseed_for_kind(EngineKind::Pcg64, 9);
    let mut b = reseed_for_kind(EngineKind::Pcg64, 9);
    let total = a.consume(1000);
    let skipped = b.draw(1000);
    let expected = skipped.iter().fold(0u64, |acc, v| acc.wrapping_add(*v));
    assert_eq!(total, expected);
    assert_eq!(a.draw(32), b.draw(32));
    assert_eq!(a.draw(0), Vec::<u64>::new());
    assert_eq!(a.consume(0), 0);
}

#[test]
fn generated_seeds_vary() {
    let seeds: Vec<u64> = (0..8).map(|_| generate_seed()).collect();
    assert!(seeds.iter().any(|s| *s != seeds[0]));
}

#[test]
fn seeded_engines_follow_seed_from_u64() {
    let mut engine = reseed_for_kind(EngineKind::ChaCha20, 42);
    let mut direct = rand_chacha::ChaCha20Rng::seed_from_u64(42);
    let expected: Vec<u64> = (0..16).map(|_| direct.next_u64()).collect();
    assert_eq!(engine.draw(16), expected);

    let mut engine = reseed_for_kind(EngineKind::ChaCha8, 5);
    let mut direct = rand_chacha::ChaCha8Rng::seed_from_u64(5);
    assert_eq!(engine.next_u64(), direct.next_u64());

    let mut engine = reseed_for_kind(EngineKind::Pcg64, 7);
    let mut direct = rand_pcg::Pcg64::seed_from_u64(7);
    let expected: Vec<u64> = (0..4).map(|_| direct.next_u64()).collect();
    assert_eq!(engine.draw(4), expected);

    let mut engine = reseed_for_kind(EngineKind::StdRng, 9);
    let mut direct = rand::rngs::StdRng::seed_from_u64(9);
    assert_eq!(engine.next_u64(), direct.next_u64());

    let mut engine = reseed_for_kind(EngineKind::SmallRng, 11);
    let mut direct = rand::rngs::SmallRng::seed_from_u64(11);
    assert_eq!(engine.next_u64(), direct.next_u64());
}
