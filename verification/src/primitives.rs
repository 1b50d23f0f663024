//! The primitives tab: samples of each integer type, of booleans and of
//! visible characters, a shuffled sequence of arrows, and the coin and dice
//! tallies.
use vstd::prelude::*;

use rand::rngs::ThreadRng;

use crate::rng::{
    random_below, random_bool, random_i128, random_i32, random_i64, random_i8, random_u128,
    random_u32, random_u32_between, random_u64, random_u8, shuffle, thread_rng,
};
use crate::text::{
    alphanumeric_char, char_from_u32, control_char, is_alphanumeric, is_control, is_scalar_value,
    is_whitespace, string_of, white_space,
};

verus! {

/// The arrows of the direction sequence, in their initial order.
pub open spec fn arrow_chars() -> Seq<char> {
    seq![
        '\u{27A1}',
        '\u{2B08}',
        '\u{2B06}',
        '\u{2B09}',
        '\u{2B05}',
        '\u{2B0B}',
        '\u{2B07}',
        '\u{2B0A}',
    ]
}

/// The code point ranges that sampled characters come from: printable ASCII,
/// Greek, Cyrillic, Hebrew, Arabic and CJK ideographs.
pub open spec fn char_ranges() -> Seq<(u32, u32)> {
    seq![
        (0x21u32, 0x7Eu32),
        (0x391u32, 0x3FFu32),
        (0x410u32, 0x44Fu32),
        (0x590u32, 0x5FFu32),
        (0x600u32, 0x6FFu32),
        (0x4E00u32, 0x9FFFu32),
    ]
}

/// Whether a character drawn from the range starting at `start` is kept: it
/// must not be a control or white-space character, and outside the ASCII
/// range it must be alphanumeric.
pub open spec fn accepted_in_range(start: u32, c: char) -> bool {
    &&& !control_char(c)
    &&& !white_space(c)
    &&& (start == 0x21 || alphanumeric_char(c))
}

/// Whether `c` lies in the `i`-th range.
pub open spec fn in_range(i: int, c: char) -> bool {
    char_ranges()[i].0 <= (c as u32) <= char_ranges()[i].1
}

/// Whether `c` is a character the sampler may keep: it lies in one of the
/// ranges and is accepted there.
pub open spec fn visible_sample(c: char) -> bool {
    exists|i: int| 0 <= i < 6 && #[trigger] in_range(i, c) && accepted_in_range(char_ranges()[i].0, c)
}

/// The sum of the dice tallies.
pub open spec fn dice_total(counts: Seq<usize>) -> int {
    counts[0] + counts[1] + counts[2] + counts[3] + counts[4] + counts[5]
}

/// A character is the character of its code.
proof fn lemma_char_code_roundtrip(c: char)
    ensures
        (c as u32) as char == c,
{
}

/// The character that the code `code`, drawn from the `range_index`-th range,
/// stands for, when that range accepts it; `None` when the code is no
/// character or the range rejects it.
pub fn visible_char_candidate(range_index: usize, code: u32) -> (r: Option<char>)
    requires
        range_index < 6,
    ensures
        r is Some <==> is_scalar_value(code) && accepted_in_range(
            char_ranges()[range_index as int].0,
            code as char,
        ),
        r matches Some(c) ==> c as u32 == code,
{
    let starts: [u32; 6] = [0x21, 0x391, 0x410, 0x590, 0x600, 0x4E00];
    let start = starts[range_index];
    assert(start == char_ranges()[range_index as int].0);
    match char_from_u32(code) {
        Some(character) => {
            proof {
                lemma_char_code_roundtrip(character);
            }
            if !is_control(character) && !is_whitespace(character) && (start == 0x21
                || is_alphanumeric(character)) {
                Some(character)
            } else {
                None
            }
        },
        None => None,
    }
}

/// Draws a visible character: one of the six ranges is picked uniformly,
/// then codes are drawn from that range until one stands for a character the
/// range accepts. Should `u64::MAX` draws in a row all be rejected, `'!'` (a
/// visible character of the first range) is given back.
pub fn random_visible_char(rng: &mut ThreadRng) -> (c: char)
    ensures
        visible_sample(c),
{
    let ranges: [(u32, u32); 6] = [
        (0x21, 0x7E),
        (0x391, 0x3FF),
        (0x410, 0x44F),
        (0x590, 0x5FF),
        (0x600, 0x6FF),
        (0x4E00, 0x9FFF),
    ];
    assert(ranges@ =~= char_ranges());
    let idx = random_below(rng, ranges.len());
    let (start, end) = ranges[idx];
    let mut attempts: u64 = u64::MAX;
    while attempts > 0
        invariant
            idx < 6,
            start == char_ranges()[idx as int].0,
            end == char_ranges()[idx as int].1,
        decreases attempts,
    {
        let code = random_u32_between(rng, start, end);
        match visible_char_candidate(idx, code) {
            Some(character) => {
                proof {
                    lemma_char_code_roundtrip(character);
                }
                assert(in_range(idx as int, character));
                return character;
            },
            None => {},
        }
        attempts -= 1;
    }
    let fallback = '!';
    assert(fallback as u32 == 0x21);
    assert(in_range(0, fallback));
    fallback
}

/// The arrows in a random order.
pub fn random_arrow_sequence(rng: &mut ThreadRng) -> (arrows: String)
    ensures
        arrows@.len() == arrow_chars().len(),
        arrows@.to_multiset() == arrow_chars().to_multiset(),
{
    let mut chars: Vec<char> = vec![
        '\u{27A1}',
        '\u{2B08}',
        '\u{2B06}',
        '\u{2B09}',
        '\u{2B05}',
        '\u{2B0B}',
        '\u{2B07}',
        '\u{2B0A}',
    ];
    assert(chars@ =~= arrow_chars());
    shuffle(&mut chars, rng);
    string_of(chars.as_slice())
}

/// The samples and tallies of the primitives tab. Floating-point samples are
/// kept beside it by the program.
#[derive(Clone, Debug)]
pub struct PrimitiveSample {
    pub u8: Vec<u8>,
    pub i8: Vec<i8>,
    pub u32: Vec<u32>,
    pub i32: Vec<i32>,
    pub u64: Vec<u64>,
    pub i64: Vec<i64>,
    pub u128: Vec<u128>,
    pub i128: Vec<i128>,
    pub bools: Vec<bool>,
    pub chars: Vec<char>,
    pub arrows: String,
    pub coin_heads: usize,
    pub coin_tails: usize,
    pub dice_counts: [usize; 6],
}

impl Default for PrimitiveSample {
    /// No samples and zero tallies.
    fn default() -> (s: Self)
        ensures
            s.u8@.len() == 0,
            s.i8@.len() == 0,
            s.u32@.len() == 0,
            s.i32@.len() == 0,
            s.u64@.len() == 0,
            s.i64@.len() == 0,
            s.u128@.len() == 0,
            s.i128@.len() == 0,
            s.bools@.len() == 0,
            s.chars@.len() == 0,
            s.arrows@.len() == 0,
            s.coin_heads == 0,
            s.coin_tails == 0,
            forall|i: int| 0 <= i < 6 ==> s.dice_counts@[i] == 0,
    {
        PrimitiveSample {
            u8: Vec::new(),
            i8: Vec::new(),
            u32: Vec::new(),
            i32: Vec::new(),
            u64: Vec::new(),
            i64: Vec::new(),
            u128: Vec::new(),
            i128: Vec::new(),
            bools: Vec::new(),
            chars: Vec::new(),
            arrows: String::new(),
            coin_heads: 0,
            coin_tails: 0,
            dice_counts: [0; 6],
        }
    }
}

impl PrimitiveSample {
    /// The integer and character samples are those of `other`.
    pub open spec fn same_samples(self, other: Self) -> bool {
        &&& self.u8 == other.u8
        &&& self.i8 == other.i8
        &&& self.u32 == other.u32
        &&& self.i32 == other.i32
        &&& self.u64 == other.u64
        &&& self.i64 == other.i64
        &&& self.u128 == other.u128
        &&& self.i128 == other.i128
        &&& self.chars == other.chars
        &&& self.arrows == other.arrows
    }

    /// Records a coin flip: the result joins the boolean samples and the
    /// matching tally grows by one.
    pub fn record_coin_flip(&mut self, heads: bool)
        requires
            heads ==> old(self).coin_heads < usize::MAX,
            !heads ==> old(self).coin_tails < usize::MAX,
        ensures
            final(self).bools@ == old(self).bools@.push(heads),
            final(self).coin_heads == old(self).coin_heads + if heads {
                1int
            } else {
                0int
            },
            final(self).coin_tails == old(self).coin_tails + if heads {
                0int
            } else {
                1int
            },
            final(self).coin_heads + final(self).coin_tails == old(self).coin_heads + old(self).coin_tails + 1,
            final(self).same_samples(*old(self)),
            final(self).dice_counts == old(self).dice_counts,
    {
        self.bools.push(heads);
        if heads {
            self.coin_heads += 1;
        } else {
            self.coin_tails += 1;
        }
    }

    /// Flips a coin with the thread-local generator and records it.
    pub fn coin_flip(&mut self)
        requires
            old(self).coin_heads < usize::MAX,
            old(self).coin_tails < usize::MAX,
        ensures
            final(self).bools@.len() == old(self).bools@.len() + 1,
            final(self).bools@.drop_last() == old(self).bools@,
            final(self).bools@.last() ==> final(self).coin_heads == old(self).coin_heads + 1
                && final(self).coin_tails == old(self).coin_tails,
            !final(self).bools@.last() ==> final(self).coin_tails == old(self).coin_tails + 1
                && final(self).coin_heads == old(self).coin_heads,
            final(self).coin_heads + final(self).coin_tails == old(self).coin_heads + old(self).coin_tails + 1,
            final(self).same_samples(*old(self)),
            final(self).dice_counts == old(self).dice_counts,
    {
        let mut rng = thread_rng();
        let heads = random_bool(&mut rng);
        self.record_coin_flip(heads);
        assert(self.bools@.drop_last() =~= old(self).bools@);
    }

    /// Records a die roll from a random byte: the face is `byte % 6 + 1`; it
    /// joins the `u8` samples and its tally grows by one.
    pub fn record_dice_roll(&mut self, byte: u8)
        requires
            old(self).dice_counts@[(byte % 6) as int] < usize::MAX,
        ensures
            final(self).u8@ == old(self).u8@.push((byte % 6 + 1) as u8),
            final(self).dice_counts@ == old(self).dice_counts@.update(
                (byte % 6) as int,
                (old(self).dice_counts@[(byte % 6) as int] + 1) as usize,
            ),
            dice_total(final(self).dice_counts@) == dice_total(old(self).dice_counts@) + 1,
            final(self).i8 == old(self).i8,
            final(self).u32 == old(self).u32,
            final(self).i32 == old(self).i32,
            final(self).u64 == old(self).u64,
            final(self).i64 == old(self).i64,
            final(self).u128 == old(self).u128,
            final(self).i128 == old(self).i128,
            final(self).chars == old(self).chars,
            final(self).arrows == old(self).arrows,
            final(self).bools == old(self).bools,
            final(self).coin_heads == old(self).coin_heads,
            final(self).coin_tails == old(self).coin_tails,
    {
        let roll = (byte % 6) as usize;
        self.u8.push((roll + 1) as u8);
        self.dice_counts[roll] = self.dice_counts[roll] + 1;
        assert(self.dice_counts@ =~= old(self).dice_counts@.update(
            roll as int,
            (old(self).dice_counts@[roll as int] + 1) as usize,
        ));
    }

    /// Rolls a die with the thread-local generator and records it.
    pub fn dice_roll(&mut self)
        requires
            forall|i: int| 0 <= i < 6 ==> old(self).dice_counts@[i] < usize::MAX,
        ensures
            final(self).u8@.len() == old(self).u8@.len() + 1,
            final(self).u8@.drop_last() == old(self).u8@,
            1 <= final(self).u8@.last() <= 6,
            final(self).dice_counts@ == old(self).dice_counts@.update(
                final(self).u8@.last() - 1,
                (old(self).dice_counts@[final(self).u8@.last() - 1] + 1) as usize,
            ),
            dice_total(final(self).dice_counts@) == dice_total(old(self).dice_counts@) + 1,
            final(self).i8 == old(self).i8,
            final(self).u32 == old(self).u32,
            final(self).i32 == old(self).i32,
            final(self).u64 == old(self).u64,
            final(self).i64 == old(self).i64,
            final(self).u128 == old(self).u128,
            final(self).i128 == old(self).i128,
            final(self).chars == old(self).chars,
            final(self).arrows == old(self).arrows,
            final(self).bools == old(self).bools,
            final(self).coin_heads == old(self).coin_heads,
            final(self).coin_tails == old(self).coin_tails,
    {
        let mut rng = thread_rng();
        let byte = random_u8(&mut rng);
        self.record_dice_roll(byte);
        assert(self.u8@.drop_last() =~= old(self).u8@);
    }

    /// Draws `count` fresh values of each integer type, `count` booleans and
    /// `count` visible characters, and a new arrow sequence; the coin and dice
    /// tallies stay.
    pub fn regenerate(&mut self, count: usize)
        ensures
            final(self).u8@.len() == count,
            final(self).i8@.len() == count,
            final(self).u32@.len() == count,
            final(self).i32@.len() == count,
            final(self).u64@.len() == count,
            final(self).i64@.len() == count,
            final(self).u128@.len() == count,
            final(self).i128@.len() == count,
            final(self).bools@.len() == count,
            final(self).chars@.len() == count,
            forall|i: int|
                0 <= i < count ==> visible_sample(#[trigger] final(self).chars@[i]),
            final(self).arrows@.len() == arrow_chars().len(),
            final(self).arrows@.to_multiset() == arrow_chars().to_multiset(),
            final(self).coin_heads == old(self).coin_heads,
            final(self).coin_tails == old(self).coin_tails,
            final(self).dice_counts == old(self).dice_counts,
    {
        let mut rng = thread_rng();
        let mut u8s: Vec<u8> = Vec::new();
        let mut i8s: Vec<i8> = Vec::new();
        let mut u32s: Vec<u32> = Vec::new();
        let mut i32s: Vec<i32> = Vec::new();
        let mut u64s: Vec<u64> = Vec::new();
        let mut i64s: Vec<i64> = Vec::new();
        let mut u128s: Vec<u128> = Vec::new();
        let mut i128s: Vec<i128> = Vec::new();
        let mut bools: Vec<bool> = Vec::new();
        let mut chars: Vec<char> = Vec::new();
        let mut i: usize = 0;
        while i < count
            invariant
                i <= count,
                u8s@.len() == i,
                i8s@.len() == i,
                u32s@.len() == i,
                i32s@.len() == i,
                u64s@.len() == i,
                i64s@.len() == i,
                u128s@.len() == i,
                i128s@.len() == i,
            decreases count - i,
        {
            u8s.push(random_u8(&mut rng));
            i8s.push(random_i8(&mut rng));
            u32s.push(random_u32(&mut rng));
            i32s.push(random_i32(&mut rng));
            u64s.push(random_u64(&mut rng));
            i64s.push(random_i64(&mut rng));
            u128s.push(random_u128(&mut rng));
            i128s.push(random_i128(&mut rng));
            i += 1;
        }
        let mut j: usize = 0;
        while j < count
            invariant
                j <= count,
                bools@.len() == j,
            decreases count - j,
        {
            bools.push(random_bool(&mut rng));
            j += 1;
        }
        let mut k: usize = 0;
        while k < count
            invariant
                k <= count,
                chars@.len() == k,
                forall|m: int|
                    0 <= m < k ==> visible_sample(#[trigger] chars@[m]),
            decreases count - k,
        {
            chars.push(random_visible_char(&mut rng));
            k += 1;
        }
        self.u8 = u8s;
        self.i8 = i8s;
        self.u32 = u32s;
        self.i32 = i32s;
        self.u64 = u64s;
        self.i64 = i64s;
        self.u128 = u128s;
        self.i128 = i128s;
        self.bools = bools;
        self.chars = chars;
        self.arrows = random_arrow_sequence(&mut rng);
    }
}

} // verus!
