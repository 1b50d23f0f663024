//! The sequences tab: choosing items, sampling several, weighted choice,
//! shuffling, and passwords drawn from an alphabet.
use vstd::prelude::*;

use crate::rng::{
    choose_string, picked_without_repetition, random_below, sample_strings, shuffle, thread_rng,
    weight_sum, weighted_index_new, weighted_index_sample, weighted_index_weights,
};
use crate::text::{chars_of, string_of};

verus! {

/// The state of the sequences tab.
#[derive(Clone, Debug, Default)]
pub struct SequenceState {
    pub items: Vec<String>,
    pub choose_count: usize,
    pub password_len: usize,
    pub alphabet: String,
    pub shuffle_step: usize,
    pub chosen_item: Option<String>,
    pub chosen_items: Vec<String>,
    pub generated_password: String,
}

/// `1 + 2 + ... + n`.
pub open spec fn triangle(n: nat) -> nat
    decreases n,
{
    if n == 0 {
        0
    } else {
        n + triangle((n - 1) as nat)
    }
}

/// The length of a password drawn from an alphabet: none from an empty one.
pub open spec fn password_length(alphabet: Seq<char>, password_len: usize) -> nat {
    if alphabet.len() == 0 {
        0
    } else {
        password_len as nat
    }
}

/// The weights `1, 2, ..., n` of the weighted choice: each item weighs its
/// position counted from one.
pub open spec fn position_weight_seq(n: nat) -> Seq<u128> {
    Seq::new(n, |i: int| (i + 1) as u128)
}

/// `1 + 2 + ... + n` is at most `n * n`.
proof fn lemma_triangle_bound(n: nat)
    ensures
        triangle(n) <= n * n,
    decreases n,
{
    if n > 0 {
        lemma_triangle_bound((n - 1) as nat);
        assert((n - 1) * (n - 1) + n <= n * n) by (nonlinear_arith)
            requires
                n >= 1,
        ;
    }
}

/// The weights of any list that fits in memory sum to no more than
/// `u128::MAX`.
proof fn lemma_position_weights_fit(n: usize)
    ensures
        triangle(n as nat) <= u128::MAX,
{
    lemma_triangle_bound(n as nat);
    assert((n as nat) * (n as nat) <= u128::MAX) by (nonlinear_arith)
        requires
            n <= u64::MAX,
    ;
}

/// The weights `1, 2, ..., n`.
pub fn position_weights(n: usize) -> (w: Vec<u128>)
    ensures
        w@ == position_weight_seq(n as nat),
        weight_sum(w@) == triangle(n as nat),
{
    let mut weights: Vec<u128> = Vec::new();
    let mut i: usize = 0;
    while i < n
        invariant
            i <= n,
            weights@ == position_weight_seq(i as nat),
            weight_sum(weights@) == triangle(i as nat),
        decreases n - i,
    {
        let ghost before = weights@;
        weights.push(i as u128 + 1);
        proof {
            assert(weights@.drop_last() =~= before);
            assert(weights@ =~= position_weight_seq((i + 1) as nat));
        }
        i += 1;
    }
    weights
}

/// The item at position `k`.
pub fn pick_item(items: &Vec<String>, k: usize) -> (item: String)
    requires
        k < items@.len(),
    ensures
        item == items@[k as int],
{
    items[k].clone()
}

/// The characters of `alphabet` at the drawn positions, in draw order.
pub open spec fn picked_chars(alphabet: Seq<char>, draws: Seq<usize>) -> Seq<char> {
    Seq::new(draws.len(), |i: int| alphabet[draws[i] as int])
}

/// A password made of the alphabet's characters at the drawn positions.
pub fn password_from_draws(alphabet: &Vec<char>, draws: &Vec<usize>) -> (password: String)
    requires
        forall|i: int| 0 <= i < draws@.len() ==> #[trigger] draws@[i] < alphabet@.len(),
    ensures
        password@ == picked_chars(alphabet@, draws@),
{
    let mut chars: Vec<char> = Vec::new();
    let mut i: usize = 0;
    while i < draws.len()
        invariant
            i <= draws@.len(),
            forall|j: int| 0 <= j < draws@.len() ==> #[trigger] draws@[j] < alphabet@.len(),
            chars@ == picked_chars(alphabet@, draws@.take(i as int)),
        decreases draws@.len() - i,
    {
        chars.push(alphabet[draws[i]]);
        assert(chars@ =~= picked_chars(alphabet@, draws@.take(i + 1)));
        i += 1;
    }
    assert(draws@.take(draws@.len() as int) =~= draws@);
    string_of(chars.as_slice())
}

impl SequenceState {
    /// The settings and the item list are those of `other`.
    pub open spec fn same_settings(self, other: Self) -> bool {
        &&& self.items == other.items
        &&& self.choose_count == other.choose_count
        &&& self.password_len == other.password_len
        &&& self.alphabet == other.alphabet
        &&& self.shuffle_step == other.shuffle_step
    }

    /// The results of earlier operations are those of `other`.
    pub open spec fn same_results(self, other: Self) -> bool {
        &&& self.chosen_item == other.chosen_item
        &&& self.chosen_items == other.chosen_items
        &&& self.generated_password == other.generated_password
    }

    /// Chooses one item uniformly: none when the list is empty.
    pub fn choose_one(&mut self)
        ensures
            final(self).same_settings(*old(self)),
            final(self).chosen_items == old(self).chosen_items,
            final(self).generated_password == old(self).generated_password,
            final(self).chosen_item is None <==> old(self).items@.len() == 0,
            final(self).chosen_item matches Some(s) ==> old(self).items@.contains(s),
    {
        let mut rng = thread_rng();
        self.chosen_item = choose_string(self.items.as_slice(), &mut rng);
    }

    /// Chooses `choose_count` distinct items (all of them when there are
    /// fewer).
    pub fn choose_multiple(&mut self)
        ensures
            final(self).same_settings(*old(self)),
            final(self).chosen_item == old(self).chosen_item,
            final(self).generated_password == old(self).generated_password,
            final(self).chosen_items@.len() == if old(self).choose_count < old(self).items@.len() {
                old(self).choose_count as int
            } else {
                old(self).items@.len() as int
            },
            picked_without_repetition(final(self).chosen_items@, old(self).items@),
    {
        let mut rng = thread_rng();
        self.chosen_items = sample_strings(self.items.as_slice(), self.choose_count, &mut rng);
    }

    /// Chooses one item with weight proportional to its position: a weighted
    /// index is made from `position_weights(n)` (the first item has weight 1,
    /// the second 2, and so on), an index is drawn from it, and the item there
    /// is picked. An empty list gives no weighted index, and the earlier choice
    /// stays.
    pub fn choose_weighted(&mut self)
        ensures
            final(self).same_settings(*old(self)),
            final(self).chosen_items == old(self).chosen_items,
            final(self).generated_password == old(self).generated_password,
            old(self).items@.len() > 0 ==> (final(self).chosen_item matches Some(s)
                && old(self).items@.contains(s)),
            old(self).items@.len() == 0 ==> final(self).chosen_item == old(self).chosen_item,
    {
        let n = self.items.len();
        let weights = position_weights(n);
        proof {
            lemma_position_weights_fit(n);
        }
        let mut rng = thread_rng();
        match weighted_index_new(&weights) {
            Ok(dist) => {
                let k = weighted_index_sample(&dist, &mut rng);
                let item = pick_item(&self.items, k);
                self.chosen_item = Some(item);
            },
            Err(_) => {
                proof {
                    if n > 0 {
                        assert(weights@[0] == 1);
                        assert(triangle(n as nat) >= 1);
                        assert(weight_sum(weights@) > 0) by {
                            assert(triangle(n as nat) >= 1);
                        }
                    }
                }
            },
        }
    }

    /// Shuffles the items and counts the shuffle.
    pub fn shuffle_items(&mut self)
        requires
            old(self).shuffle_step < usize::MAX,
        ensures
            final(self).items@.len() == old(self).items@.len(),
            final(self).items@.to_multiset() == old(self).items@.to_multiset(),
            final(self).shuffle_step == old(self).shuffle_step + 1,
            final(self).choose_count == old(self).choose_count,
            final(self).password_len == old(self).password_len,
            final(self).alphabet == old(self).alphabet,
            final(self).same_results(*old(self)),
    {
        let mut items = self.items.clone();
        proof {
            assert(items@ =~= self.items@);
        }
        let mut rng = thread_rng();
        shuffle(&mut items, &mut rng);
        self.items = items;
        self.shuffle_step += 1;
    }

    /// Draws a password of `password_len` characters, each picked uniformly
    /// from the alphabet; an empty alphabet gives an empty password.
    pub fn generate_password(&mut self)
        ensures
            final(self).same_settings(*old(self)),
            final(self).chosen_item == old(self).chosen_item,
            final(self).chosen_items == old(self).chosen_items,
            final(self).generated_password@.len() == password_length(
                old(self).alphabet@,
                old(self).password_len,
            ),
            forall|i: int|
                0 <= i < final(self).generated_password@.len() ==> old(self).alphabet@.contains(#[trigger] final(self).generated_password@[i]),
            old(self).alphabet@.len() > 0 ==> exists|draws: Seq<usize>|
                {
                    &&& draws.len() == old(self).password_len
                    &&& forall|i: int| 0 <= i < draws.len() ==> #[trigger] draws[i] < old(self).alphabet@.len()
                    &&& final(self).generated_password@ == picked_chars(old(self).alphabet@, draws)
                },
    {
        let alphabet = chars_of(self.alphabet.as_str());
        if alphabet.len() == 0 {
            self.generated_password = String::new();
            return;
        }
        let mut rng = thread_rng();
        let mut draws: Vec<usize> = Vec::new();
        let mut i: usize = 0;
        while i < self.password_len
            invariant
                i <= self.password_len,
                alphabet@ == self.alphabet@,
                alphabet@.len() > 0,
                draws@.len() == i,
                forall|j: int| 0 <= j < i ==> #[trigger] draws@[j] < alphabet@.len(),
            decreases self.password_len - i,
        {
            draws.push(random_below(&mut rng, alphabet.len()));
            i += 1;
        }
        let password = password_from_draws(&alphabet, &draws);
        proof {
            assert forall|j: int| 0 <= j < password@.len() implies alphabet@.contains(
                #[trigger] password@[j],
            ) by {
                assert(password@[j] == alphabet@[draws@[j] as int]);
            }
        }
        self.generated_password = password;

    }
}

} // verus!
