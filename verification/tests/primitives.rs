use rand_explorer::primitives::visible_char_candidate;
use rand_explorer::primitives::{random_arrow_sequence, random_visible_char, PrimitiveSample};

const RANGES: [(u32, u32); 6] = [
    (0x21, 0x7E),
    (0x391, 0x3FF),
    (0x410, 0x44F),
    (0x590, 0x5FF),
    (0x600, 0x6FF),
    (0x4E00, 0x9FFF),
];

fn is_visible(c: char) -> bool {
    RANGES.iter().any(|(start, end)| {
        (*start..=*end).contains(&(c as u32))
            && !c.is_control()
            && !c.is_whitespace()
            && (*start == 0x21 || c.is_alphanumeric())
    })
}

#[test]
fn default_sample_is_empty() {
    let s = PrimitiveSample::default();
    assert!(s.u8.is_empty() && s.bools.is_empty() && s.chars.is_empty());
    assert_eq!(s.arrows, "");
    assert_eq!((s.coin_heads, s.coin_tails), (0, 0));
    assert_eq!(s.dice_counts, [0; 6]);
}

#[test]
fn coin_flips_are_tallied() {
    let mut s = PrimitiveSample::default();
    s.record_coin_flip(true);
    s.record_coin_flip(false);
    s.record_coin_flip(true);
    assert_eq!(s.bools, vec![true, false, true]);
    assert_eq!((s.coin_heads, s.coin_tails), (2, 1));
    for _ in 0..100 {
        s.coin_flip();
    }
    assert_eq!(s.coin_heads + s.coin_tails, 103);
    assert_eq!(s.bools.len(), 103);
    assert_eq!(s.bools.iter().filter(|b| **b).count(), s.coin_heads);
}

#[test]
fn dice_rolls_are_tallied() {
    let mut s = PrimitiveSample::default();
    s.record_dice_roll(0);
    s.record_dice_roll(5);
    s.record_dice_roll(6);
    s.record_dice_roll(255);
    assert_eq!(s.u8, vec![1, 6, 1, 4]);
    assert_eq!(s.dice_counts, [2, 0, 0, 1, 0, 1]);
    for _ in 0..100 {
        s.dice_roll();
    }
    assert_eq!(s.dice_counts.iter().sum::<usize>(), 104);
    assert!(s.u8.iter().all(|face| (1..=6).contains(face)));
}

#[test]
fn visible_chars_come_from_the_ranges() {
    let mut rng = rand::rng();
    for _ in 0..2000 {
        let c = random_visible_char(&mut rng);
        assert!(is_visible(c), "{c:?}");
    }
}

#[test]
fn arrows_are_a_permutation() {
    let mut rng = rand::rng();
    for _ in 0..20 {
        let arrows = random_arrow_sequence(&mut rng);
        let mut got: Vec<char> = arrows.chars().collect();
        got.sort();
        let mut want: Vec<char> = "\u{27A1}\u{2B08}\u{2B06}\u{2B09}\u{2B05}\u{2B0B}\u{2B07}\u{2B0A}".chars().collect();
        want.sort();
        assert_eq!(got, want);
    }
}

#[test]
fn regenerate_fills_every_sample() {
    let mut s = PrimitiveSample::default();
    s.record_coin_flip(true);
    s.record_dice_roll(2);
    s.regenerate(32);
    assert_eq!(s.u8.len(), 32);
    assert_eq!(s.i8.len(), 32);
    assert_eq!(s.u32.len(), 32);
    assert_eq!(s.i32.len(), 32);
    assert_eq!(s.u64.len(), 32);
    assert_eq!(s.i64.len(), 32);
    assert_eq!(s.u128.len(), 32);
    assert_eq!(s.i128.len(), 32);
    assert_eq!(s.bools.len(), 32);
    assert_eq!(s.chars.len(), 32);
    assert!(s.chars.iter().all(|c| is_visible(*c)));
    assert_eq!(s.arrows.chars().count(), 8);
    assert_eq!((s.coin_heads, s.coin_tails), (1, 0));
    assert_eq!(s.dice_counts, [0, 0, 1, 0, 0, 0]);
    s.regenerate(0);
    assert!(s.u8.is_empty() && s.chars.is_empty());
}

#[test]
fn arrows_are_reordered_eventually() {
    let mut rng = rand::rng();
    let initial = "\u{27A1}\u{2B08}\u{2B06}\u{2B09}\u{2B05}\u{2B0B}\u{2B07}\u{2B0A}";
    assert!((0..20).any(|_| random_arrow_sequence(&mut rng) != initial));
}

#[test]
fn candidates_follow_the_range_rules() {
    assert_eq!(visible_char_candidate(0, 0x41), Some('A'));
    assert_eq!(visible_char_candidate(0, 0x21), Some('!'));
    assert_eq!(visible_char_candidate(0, 0x20), None);
    assert_eq!(visible_char_candidate(0, 0x7F), None);
    assert_eq!(visible_char_candidate(1, 0x391), Some('\u{391}'));
    assert_eq!(visible_char_candidate(1, 0x3A2), None);
    assert_eq!(visible_char_candidate(5, 0xD800), None);
    assert_eq!(visible_char_candidate(2, 0x2000), None);
}
