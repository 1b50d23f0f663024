//! The distributions the explorer samples from, and the tokens of the
//! weight list a weighted index is built from.
use vstd::prelude::*;

use crate::build_info::{lemma_split_nonempty, split_on, views};
use crate::text::{chars_of, string_of, trim, trimmed};

verus! {

/// The distributions offered on the distributions tab.
#[derive(Clone, Copy, Debug, PartialEq, Eq, Structural)]
pub enum DistributionKind {
    Normal,
    Standard,
    Uniform,
    Bernoulli,
    Exponential,
    Poisson,
    WeightedIndex,
}

/// Every distribution kind, in the order the selector lists them.
pub open spec fn distribution_kinds() -> Seq<DistributionKind> {
    seq![
        DistributionKind::Standard,
        DistributionKind::Uniform,
        DistributionKind::Bernoulli,
        DistributionKind::Normal,
        DistributionKind::Exponential,
        DistributionKind::Poisson,
        DistributionKind::WeightedIndex,
    ]
}

/// The name a distribution kind is shown under.
pub open spec fn distribution_label(kind: DistributionKind) -> Seq<char> {
    match kind {
        DistributionKind::Normal => "Normal"@,
        DistributionKind::Standard => "Standard"@,
        DistributionKind::Uniform => "Uniform"@,
        DistributionKind::Bernoulli => "Bernoulli"@,
        DistributionKind::Exponential => "Exponential"@,
        DistributionKind::Poisson => "Poisson"@,
        DistributionKind::WeightedIndex => "WeightedIndex"@,
    }
}

/// Whether a theoretical density curve is drawn over the histogram: for the
/// continuous distributions, not for Bernoulli, Poisson or weighted indices.
pub open spec fn spec_has_density(kind: DistributionKind) -> bool {
    match kind {
        DistributionKind::Standard | DistributionKind::Uniform | DistributionKind::Normal
        | DistributionKind::Exponential => true,
        DistributionKind::Bernoulli | DistributionKind::Poisson
        | DistributionKind::WeightedIndex => false,
    }
}

/// Every distribution kind is offered by the selector, and none twice.
pub proof fn lemma_distribution_kinds_complete(kind: DistributionKind)
    ensures
        distribution_kinds().contains(kind),
        distribution_kinds().no_duplicates(),
{
    let s = distribution_kinds();
    match kind {
        DistributionKind::Standard => assert(s[0] == kind),
        DistributionKind::Uniform => assert(s[1] == kind),
        DistributionKind::Bernoulli => assert(s[2] == kind),
        DistributionKind::Normal => assert(s[3] == kind),
        DistributionKind::Exponential => assert(s[4] == kind),
        DistributionKind::Poisson => assert(s[5] == kind),
        DistributionKind::WeightedIndex => assert(s[6] == kind),
    }
}

impl DistributionKind {
    /// All distribution kinds, in selector order.
    pub fn all() -> (kinds: &'static [DistributionKind])
        ensures
            kinds@ == distribution_kinds(),
    {
        let kinds: &'static [DistributionKind] = &[
            DistributionKind::Standard,
            DistributionKind::Uniform,
            DistributionKind::Bernoulli,
            DistributionKind::Normal,
            DistributionKind::Exponential,
            DistributionKind::Poisson,
            DistributionKind::WeightedIndex,
        ];
        kinds
    }

    /// The name this kind is shown under.
    pub fn label(self) -> (name: &'static str)
        ensures
            name@ == distribution_label(self),
    {
        match self {
            DistributionKind::Normal => "Normal",
            DistributionKind::Standard => "Standard",
            DistributionKind::Uniform => "Uniform",
            DistributionKind::Bernoulli => "Bernoulli",
            DistributionKind::Exponential => "Exponential",
            DistributionKind::Poisson => "Poisson",
            DistributionKind::WeightedIndex => "WeightedIndex",
        }
    }

    /// Whether a theoretical density curve exists for this kind.
    pub fn has_density(self) -> (r: bool)
        ensures
            r == spec_has_density(self),
    {
        match self {
            DistributionKind::Standard | DistributionKind::Uniform | DistributionKind::Normal
            | DistributionKind::Exponential => true,
            _ => false,
        }
    }
}

impl Default for DistributionKind {
    /// The normal distribution.
    fn default() -> (kind: Self)
        ensures
            kind == DistributionKind::Normal,
    {
        DistributionKind::Normal
    }
}

/// The separator of a weight list: `','`.
pub open spec fn weight_separator() -> Seq<char> {
    seq![',']
}

/// The pieces of `cs` between commas.
fn split_at_commas(cs: &Vec<char>) -> (pieces: Vec<Vec<char>>)
    ensures
        pieces@.map_values(|p: Vec<char>| p@) == split_on(cs@, weight_separator()),
{
    let ghost sep = weight_separator();
    let n = cs.len();
    let mut pieces: Vec<Vec<char>> = Vec::new();
    let mut cur: Vec<char> = Vec::new();
    let mut i: usize = 0;
    proof {
        assert(cs@.skip(0) =~= cs@);
        lemma_split_nonempty(cs@, sep);
        let r = split_on(cs@, sep);
        assert(r.update(0, Seq::<char>::empty() + r[0]) =~= r);
        assert(pieces@.map_values(|p: Vec<char>| p@) =~= Seq::<Seq<char>>::empty());
    }
    while i < n
        invariant
            n == cs@.len(),
            i <= n,
            sep == weight_separator(),
            split_on(cs@, sep) == pieces@.map_values(|p: Vec<char>| p@) + {
                let r = split_on(cs@.skip(i as int), sep);
                r.update(0, cur@ + r[0])
            },
        decreases n - i,
    {
        let ghost done = pieces@.map_values(|p: Vec<char>| p@);
        let ghost t = cs@.skip(i as int);
        if cs[i] == ',' {
            proof {
                assert(t.take(1) =~= sep);
                assert(t.skip(1) =~= cs@.skip(i + 1));
                let r2 = split_on(t.skip(1), sep);
                lemma_split_nonempty(t.skip(1), sep);
                assert(split_on(t, sep) == seq![Seq::<char>::empty()] + r2);
                assert((seq![Seq::<char>::empty()] + r2).update(0, cur@ + Seq::<char>::empty())
                    =~= seq![cur@] + r2);
                assert(cur@ + Seq::<char>::empty() =~= cur@);
            }
            let finished = cur;
            pieces.push(finished);
            cur = Vec::new();
            i += 1;
            proof {
                let ndone = pieces@.map_values(|p: Vec<char>| p@);
                assert(ndone =~= done.push(finished@));
                let r2 = split_on(cs@.skip(i as int), sep);
                assert(r2.update(0, cur@ + r2[0]) =~= r2);
                assert(done + (seq![finished@] + r2) =~= ndone + r2);
            }
        } else {
            let c = cs[i];
            proof {
                assert(t[0] == c);
                assert(t.drop_first() =~= cs@.skip(i + 1));
                if t.len() >= 1 && t.take(1) == sep {
                    assert(t.take(1)[0] == t[0]);
                }
                let r = split_on(t.drop_first(), sep);
                lemma_split_nonempty(t.drop_first(), sep);
                assert(split_on(t, sep) == r.update(0, seq![c] + r[0]));
                assert(cur@ + (seq![c] + r[0]) =~= cur@.push(c) + r[0]);
                let rr = r.update(0, seq![c] + r[0]);
                assert(rr[0] == seq![c] + r[0]);
                assert(rr.update(0, cur@ + rr[0]) =~= r.update(0, cur@.push(c) + r[0]));
            }
            cur.push(c);
            i += 1;
        }
    }
    proof {
        assert(cs@.skip(n as int) =~= Seq::<char>::empty());
        let r = split_on(Seq::<char>::empty(), sep);
        assert(r =~= seq![Seq::<char>::empty()]);
        assert(r.update(0, cur@ + r[0]) =~= seq![cur@]);
        assert(cur@ + Seq::<char>::empty() =~= cur@);
    }
    let last = cur;
    let ghost before = pieces@.map_values(|p: Vec<char>| p@);
    pieces.push(last);
    proof {
        assert(pieces@.map_values(|p: Vec<char>| p@) =~= before.push(last@));
        assert(before + seq![last@] =~= before.push(last@));
    }
    pieces
}

/// The tokens of a weight list such as `"1, 2.5,3"`: the text is cut at each
/// comma and each piece is trimmed; each token is then read as a number by
/// the caller.
pub fn weight_tokens(list: &str) -> (tokens: Vec<String>)
    ensures
        views(tokens@) == split_on(list@, weight_separator()).map_values(|p: Seq<char>| trimmed(p)),
{
    let cs = chars_of(list);
    let pieces = split_at_commas(&cs);
    let ghost expected = pieces@.map_values(|p: Vec<char>| p@).map_values(|p: Seq<char>| trimmed(p));
    let mut tokens: Vec<String> = Vec::new();
    let mut k: usize = 0;
    while k < pieces.len()
        invariant
            k <= pieces@.len(),
            expected == pieces@.map_values(|p: Vec<char>| p@).map_values(|p: Seq<char>| trimmed(p)),
            views(tokens@) == expected.take(k as int),
        decreases pieces@.len() - k,
    {
        let piece = string_of(pieces[k].as_slice());
        let t = trim(piece.as_str());
        let ghost before = views(tokens@);
        tokens.push(t.to_owned());
        proof {
            assert(views(tokens@) =~= before.push(t@));
            assert(expected.take(k + 1) =~= expected.take(k as int).push(t@));
        }
        k += 1;
    }
    proof {
        assert(expected.take(pieces@.len() as int) =~= expected);
    }
    tokens
}

} // verus!
