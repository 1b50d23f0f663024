//! Build metadata: the values the build environment provides, and the list of
//! `name=version` entries of the dependencies the program was built with.
use vstd::prelude::*;

use crate::text::{
    chars_of, lemma_trimmed_ends, string_of, trim, trim_end, trim_start, trimmed, white_space,
};

verus! {

/// The separator between entries of the dependency list: `" | "`.
pub open spec fn entry_separator() -> Seq<char> {
    seq![' ', '|', ' ']
}

/// `s` cut at every occurrence of `sep`, scanning from the left; as
/// `str::split` with a string pattern does, the pieces between matches are
/// kept, empty ones included.
pub open spec fn split_on(s: Seq<char>, sep: Seq<char>) -> Seq<Seq<char>>
    decreases s.len(),
{
    if s.len() == 0 {
        seq![s]
    } else if sep.len() > 0 && s.len() >= sep.len() && s.take(sep.len() as int) == sep {
        seq![Seq::<char>::empty()] + split_on(s.skip(sep.len() as int), sep)
    } else {
        let rest = split_on(s.drop_first(), sep);
        rest.update(0, seq![s[0]] + rest[0])
    }
}

/// Whether a piece of text holds at least one character.
pub open spec fn is_nonempty(p: Seq<char>) -> bool {
    p.len() > 0
}

/// The entries of a dependency list: the pieces between separators, trimmed,
/// empty ones left out.
pub open spec fn dependency_entries(s: Seq<char>) -> Seq<Seq<char>> {
    nonempty_pieces(split_on(s, entry_separator()).map_values(|p: Seq<char>| trimmed(p)))
}

/// The pieces that hold at least one character, in order.
pub open spec fn nonempty_pieces(m: Seq<Seq<char>>) -> Seq<Seq<char>> {
    m.filter(|p: Seq<char>| is_nonempty(p))
}

/// A value the build environment may have left unset, with `"unknown"` in its
/// place when it did.
pub open spec fn or_unknown(value: Option<&str>) -> Seq<char> {
    match value {
        Some(s) => s@,
        None => "unknown"@,
    }
}

/// The dependency list used when the build environment gives none.
pub open spec fn default_dependency_list() -> Seq<char> {
    "unknown=unknown"@
}

/// The views of a list of strings.
pub open spec fn views(v: Seq<String>) -> Seq<Seq<char>> {
    v.map_values(|s: String| s@)
}

/// A split always yields at least one piece.
pub proof fn lemma_split_nonempty(s: Seq<char>, sep: Seq<char>)
    ensures
        split_on(s, sep).len() >= 1,
    decreases s.len(),
{
    if s.len() == 0 {
    } else if sep.len() > 0 && s.len() >= sep.len() && s.take(sep.len() as int) == sep {
        lemma_split_nonempty(s.skip(sep.len() as int), sep);
    } else {
        lemma_split_nonempty(s.drop_first(), sep);
    }
}

/// Whether a piece of text has no white space at either end.
pub open spec fn no_outer_white_space(p: Seq<char>) -> bool {
    p.len() > 0 ==> !white_space(p[0]) && !white_space(p.last())
}

proof fn lemma_filter_keeps_trimmed(m: Seq<Seq<char>>)
    requires
        forall|i: int| 0 <= i < m.len() ==> no_outer_white_space(#[trigger] m[i]),
    ensures
        forall|i: int|
            0 <= i < nonempty_pieces(m).len() ==> no_outer_white_space(
                #[trigger] nonempty_pieces(m)[i],
            ),
    decreases m.len(),
{
    reveal(Seq::filter);
    if m.len() > 0 {
        let init = m.drop_last();
        assert forall|i: int| 0 <= i < init.len() implies no_outer_white_space(#[trigger] init[i]) by {
            assert(init[i] == m[i]);
        }
        lemma_filter_keeps_trimmed(init);
        assert(no_outer_white_space(m.last()));
        let sub = nonempty_pieces(init);
        assert(m.filter(|p: Seq<char>| is_nonempty(p)) == if is_nonempty(m.last()) {
            sub.push(m.last())
        } else {
            sub
        });
        assert forall|i: int| 0 <= i < nonempty_pieces(m).len() implies no_outer_white_space(
            #[trigger] nonempty_pieces(m)[i],
        ) by {
            if i < sub.len() {
                assert(nonempty_pieces(m)[i] == sub[i]);
            }
        }
    } else {
        assert(nonempty_pieces(m) =~= m);
    }
}

/// Every entry of a parsed dependency list holds at least one character and
/// has no white space at either end.
pub proof fn lemma_dependency_entries_nonempty(s: Seq<char>)
    ensures
        forall|i: int|
            0 <= i < dependency_entries(s).len() ==> #[trigger] dependency_entries(s)[i].len() > 0
                && no_outer_white_space(dependency_entries(s)[i]),
{
    let pred = |p: Seq<char>| is_nonempty(p);
    let pieces = split_on(s, entry_separator()).map_values(|p: Seq<char>| trimmed(p));
    assert forall|i: int| 0 <= i < pieces.len() implies no_outer_white_space(#[trigger] pieces[i]) by {
        lemma_trimmed_ends(split_on(s, entry_separator())[i]);
    }
    lemma_filter_keeps_trimmed(pieces);
    assert forall|i: int| 0 <= i < dependency_entries(s).len() implies #[trigger] dependency_entries(
        s,
    )[i].len() > 0 && no_outer_white_space(dependency_entries(s)[i]) by {
        pieces.lemma_filter_pred(pred, i);
    }
}

/// Entries written one after another with `sep` between them, as the build
/// writes the dependency list.
pub open spec fn join_entries(es: Seq<Seq<char>>, sep: Seq<char>) -> Seq<char>
    decreases es.len(),
{
    if es.len() == 0 {
        Seq::<char>::empty()
    } else if es.len() == 1 {
        es[0]
    } else {
        es[0] + sep + join_entries(es.drop_first(), sep)
    }
}

/// Whether an entry can be written into a dependency list and read back: it is
/// not empty, holds no `'|'`, and neither starts nor ends with white space.
pub open spec fn writable_entry(e: Seq<char>) -> bool {
    &&& e.len() > 0
    &&& !e.contains('|')
    &&& !white_space(e[0])
    &&& !white_space(e.last())
}

proof fn lemma_split_after_plain_prefix(e: Seq<char>, t: Seq<char>)
    requires
        !e.contains('|'),
        t.len() > 0 ==> t[0] != '|',
    ensures
        ({
            let r = split_on(t, entry_separator());
            split_on(e + t, entry_separator()) == r.update(0, e + r[0])
        }),
    decreases e.len(),
{
    let sep = entry_separator();
    lemma_split_nonempty(t, sep);
    let r = split_on(t, sep);
    if e.len() == 0 {
        assert(e + t =~= t);
        assert(r.update(0, e + r[0]) =~= r) by {
            assert(e + r[0] =~= r[0]);
        }
    } else {
        let d = e.drop_first();
        assert forall|x: char| d.contains(x) implies x != '|' by {
            let j = choose|j: int| 0 <= j < d.len() && d[j] == x;
            assert(e[j + 1] == x);
        }
        lemma_split_after_plain_prefix(d, t);
        let et = e + t;
        assert(et.drop_first() =~= d + t);
        if et.len() >= 3 && et.take(3) == sep {
            assert(et.take(3)[1] == '|');
            if e.len() >= 2 {
                assert(e[1] == et[1]);
                assert(e.contains(e[1]));
            } else {
                assert(et[1] == t[0]);
            }
        }
        let rd = split_on(d + t, sep);
        assert(rd =~= r.update(0, d + r[0]));
        assert(split_on(et, sep) == rd.update(0, seq![et[0]] + rd[0]));
        assert(seq![et[0]] + (d + r[0]) =~= e + r[0]);
        assert(rd.update(0, seq![et[0]] + rd[0]) =~= r.update(0, e + r[0]));
    }
}

proof fn lemma_split_joined(es: Seq<Seq<char>>)
    requires
        es.len() > 0,
        forall|i: int| 0 <= i < es.len() ==> !(#[trigger] es[i]).contains('|'),
    ensures
        split_on(join_entries(es, entry_separator()), entry_separator()) == es,
    decreases es.len(),
{
    let sep = entry_separator();
    if es.len() == 1 {
        lemma_split_after_plain_prefix(es[0], Seq::<char>::empty());
        assert(es[0] + Seq::<char>::empty() =~= es[0]);
        let r = split_on(Seq::<char>::empty(), sep);
        assert(r =~= seq![Seq::<char>::empty()]);
        assert(es[0] + r[0] =~= es[0]);
        assert(r.update(0, es[0] + r[0]) =~= es);
    } else {
        let rest = es.drop_first();
        assert forall|i: int| 0 <= i < rest.len() implies !(#[trigger] rest[i]).contains('|') by {
            assert(rest[i] == es[i + 1]);
        }
        lemma_split_joined(rest);
        let t = sep + join_entries(rest, sep);
        assert(t.take(3) =~= sep);
        assert(t.skip(3) =~= join_entries(rest, sep));
        assert(split_on(t, sep) == seq![Seq::<char>::empty()] + rest);
        lemma_split_after_plain_prefix(es[0], t);
        assert(es[0] + sep + join_entries(rest, sep) =~= es[0] + t);
        let r = seq![Seq::<char>::empty()] + rest;
        assert(es[0] + r[0] =~= es[0]);
        assert(r.update(0, es[0] + r[0]) =~= es);
    }
}

proof fn lemma_trimmed_plain(e: Seq<char>)
    requires
        e.len() > 0,
        !white_space(e[0]),
        !white_space(e.last()),
    ensures
        trimmed(e) == e,
{
    assert(trim_start(e) == e);
    assert(trim_end(e) == e);
}

proof fn lemma_filter_all_nonempty(es: Seq<Seq<char>>)
    requires
        forall|i: int| 0 <= i < es.len() ==> (#[trigger] es[i]).len() > 0,
    ensures
        es.filter(|p: Seq<char>| is_nonempty(p)) == es,
    decreases es.len(),
{
    reveal(Seq::filter);
    if es.len() > 0 {
        let init = es.drop_last();
        assert forall|i: int| 0 <= i < init.len() implies (#[trigger] init[i]).len() > 0 by {
            assert(init[i] == es[i]);
        }
        lemma_filter_all_nonempty(init);
        assert(init.push(es.last()) =~= es);
    }
}

/// A dependency list written by joining entries with `" | "` reads back as
/// those entries, whenever each entry is writable (non-empty, free of `'|'`,
/// without white space at either end).
pub proof fn lemma_dependency_list_roundtrip(es: Seq<Seq<char>>)
    requires
        forall|i: int| 0 <= i < es.len() ==> writable_entry(#[trigger] es[i]),
    ensures
        dependency_entries(join_entries(es, entry_separator())) == es,
{
    let sep = entry_separator();
    if es.len() == 0 {
        let r = split_on(Seq::<char>::empty(), sep);
        assert(r =~= seq![Seq::<char>::empty()]);
        let m = r.map_values(|p: Seq<char>| trimmed(p));
        assert(trim_start(Seq::<char>::empty()) == Seq::<char>::empty());
        assert(trim_end(Seq::<char>::empty()) == Seq::<char>::empty());
        assert(m =~= seq![Seq::<char>::empty()]);
        reveal(Seq::filter);
        assert(m.drop_last() =~= Seq::<Seq<char>>::empty());
        assert(m.drop_last().filter(|p: Seq<char>| is_nonempty(p)) =~= Seq::<Seq<char>>::empty());
        assert(!is_nonempty(m.last()));
        assert(m.filter(|p: Seq<char>| is_nonempty(p)) =~= es);
    } else {
        assert forall|i: int| 0 <= i < es.len() implies !(#[trigger] es[i]).contains('|') by {
            assert(writable_entry(es[i]));
        }
        lemma_split_joined(es);
        let m = es.map_values(|p: Seq<char>| trimmed(p));
        assert forall|i: int| 0 <= i < es.len() implies #[trigger] m[i] == es[i] by {
            assert(writable_entry(es[i]));
            lemma_trimmed_plain(es[i]);
        }
        assert(m =~= es);
        lemma_filter_all_nonempty(es);
    }
}

/// The pieces of `cs` between occurrences of `" | "`.
fn split_entries(cs: &Vec<char>) -> (pieces: Vec<Vec<char>>)
    ensures
        pieces@.map_values(|p: Vec<char>| p@) == split_on(cs@, entry_separator()),
{
    let ghost sep = entry_separator();
    let n = cs.len();
    let mut pieces: Vec<Vec<char>> = Vec::new();
    let mut cur: Vec<char> = Vec::new();
    let mut i: usize = 0;
    proof {
        assert(cs@.skip(0) =~= cs@);
        lemma_split_nonempty(cs@, sep);
        let r = split_on(cs@, sep);
        assert(r.update(0, Seq::<char>::empty() + r[0]) =~= r);
        assert(pieces@.map_values(|p: Vec<char>| p@) =~= Seq::<Seq<char>>::empty());
    }
    while i < n
        invariant
            n == cs@.len(),
            i <= n,
            sep == entry_separator(),
            split_on(cs@, sep) == pieces@.map_values(|p: Vec<char>| p@) + {
                let r = split_on(cs@.skip(i as int), sep);
                r.update(0, cur@ + r[0])
            },
        decreases n - i,
    {
        let ghost done = pieces@.map_values(|p: Vec<char>| p@);
        let ghost t = cs@.skip(i as int);
        if n - i >= 3 && cs[i] == ' ' && cs[i + 1] == '|' && cs[i + 2] == ' ' {
            proof {
                assert(t.take(3) =~= sep);
                assert(t.skip(3) =~= cs@.skip(i + 3));
                let r2 = split_on(t.skip(3), sep);
                lemma_split_nonempty(t.skip(3), sep);
                assert(split_on(t, sep) == seq![Seq::<char>::empty()] + r2);
                assert(r2.update(0, Seq::<char>::empty() + r2[0]) =~= r2);
                assert((seq![Seq::<char>::empty()] + r2).update(0, cur@ + Seq::<char>::empty())
                    =~= seq![cur@] + r2);
                assert(cur@ + Seq::<char>::empty() =~= cur@);
            }
            let finished = cur;
            pieces.push(finished);
            cur = Vec::new();
            i += 3;
            proof {
                let ndone = pieces@.map_values(|p: Vec<char>| p@);
                assert(ndone =~= done.push(finished@));
                let r2 = split_on(cs@.skip(i as int), sep);
                assert(r2.update(0, cur@ + r2[0]) =~= r2);
                assert(done + (seq![finished@] + r2) =~= ndone + r2);
            }
        } else {
            let c = cs[i];
            proof {
                assert(t.len() > 0);
                assert(t[0] == c);
                assert(t.drop_first() =~= cs@.skip(i + 1));
                if t.len() >= 3 && t.take(3) == sep {
                    assert(t.take(3)[0] == t[0]);
                    assert(t.take(3)[1] == t[1]);
                    assert(t.take(3)[2] == t[2]);
                    assert(t[1] == cs@[i + 1]);
                    assert(t[2] == cs@[i + 2]);
                }
                let r = split_on(t.drop_first(), sep);
                lemma_split_nonempty(t.drop_first(), sep);
                assert(split_on(t, sep) == r.update(0, seq![c] + r[0]));
                assert(cur@ + (seq![c] + r[0]) =~= cur@.push(c) + r[0]);
                let rr = r.update(0, seq![c] + r[0]);
                assert(rr[0] == seq![c] + r[0]);
                assert(rr.update(0, cur@ + rr[0]) =~= r.update(0, cur@.push(c) + r[0]));
            }
            cur.push(c);
            i += 1;
        }
    }
    proof {
        assert(cs@.skip(n as int) =~= Seq::<char>::empty());
        let r = split_on(Seq::<char>::empty(), sep);
        assert(r =~= seq![Seq::<char>::empty()]);
        assert(r.update(0, cur@ + r[0]) =~= seq![cur@]);
        assert(cur@ + Seq::<char>::empty() =~= cur@);
    }
    let last = cur;
    let ghost before = pieces@.map_values(|p: Vec<char>| p@);
    pieces.push(last);
    proof {
        assert(pieces@.map_values(|p: Vec<char>| p@) =~= before.push(last@));
        assert(before + seq![last@] =~= before.push(last@));
    }
    pieces
}

/// The entries of a dependency list such as `"rand=0.10.3 | serde=1.0.0"`:
/// the text is cut at each `" | "`, each piece is trimmed, and empty pieces
/// are dropped.
pub fn parse_dependency_list(list: &str) -> (entries: Vec<String>)
    ensures
        views(entries@) == dependency_entries(list@),
{
    let cs = chars_of(list);
    let pieces = split_entries(&cs);
    let ghost trimmed_pieces = pieces@.map_values(|p: Vec<char>| p@).map_values(
        |p: Seq<char>| trimmed(p),
    );
    let mut entries: Vec<String> = Vec::new();
    let mut k: usize = 0;
    proof {
        reveal(Seq::filter);
        assert(trimmed_pieces.take(0) =~= Seq::<Seq<char>>::empty());
        assert(views(entries@) =~= Seq::<Seq<char>>::empty());
    }
    while k < pieces.len()
        invariant
            k <= pieces@.len(),
            trimmed_pieces == pieces@.map_values(|p: Vec<char>| p@).map_values(
                |p: Seq<char>| trimmed(p),
            ),
            views(entries@) == trimmed_pieces.take(k as int).filter(
                |p: Seq<char>| is_nonempty(p),
            ),
        decreases pieces@.len() - k,
    {
        let piece = string_of(pieces[k].as_slice());
        let t = trim(piece.as_str());
        let ghost before = views(entries@);
        proof {
            reveal(Seq::filter);
            let tk = trimmed_pieces.take(k + 1);
            assert(tk.drop_last() =~= trimmed_pieces.take(k as int));
            assert(tk.last() == t@);
        }
        if t.unicode_len() > 0 {
            entries.push(t.to_owned());
            proof {
                assert(views(entries@) =~= before.push(t@));
            }
        }
        k += 1;
    }
    proof {
        assert(trimmed_pieces.take(pieces@.len() as int) =~= trimmed_pieces);
        assert(trimmed_pieces =~= split_on(cs@, entry_separator()).map_values(
            |p: Seq<char>| trimmed(p),
        ));
    }
    entries
}


/// Build metadata as the build environment provides it; each value may be
/// missing.
pub struct BuildEnvironment<'a> {
    pub git_sha: Option<&'a str>,
    pub git_branch: Option<&'a str>,
    pub git_timestamp: Option<&'a str>,
    pub rustc_version: Option<&'a str>,
    pub target_triple: Option<&'a str>,
    pub cargo_profile: Option<&'a str>,
    pub package_version: Option<&'a str>,
    /// Entries `name=version` separated by `" | "`.
    pub dependency_list: Option<&'a str>,
}

/// Build metadata shown on the system tab.
#[derive(Clone, Debug)]
pub struct BuildInfo {
    pub git_sha: String,
    pub git_branch: String,
    pub git_timestamp: String,
    pub rustc_version: String,
    pub target_triple: String,
    pub cargo_profile: String,
    pub package_version: String,
    pub dependency_versions: Vec<String>,
}

/// The dependency list of a build environment, or the default one.
pub open spec fn dependency_list_or_default(value: Option<&str>) -> Seq<char> {
    match value {
        Some(s) => s@,
        None => default_dependency_list(),
    }
}

/// `e` cut at its first occurrence of `c`, as `str::split_once` does.
pub open spec fn split_once(e: Seq<char>, c: char) -> Option<(Seq<char>, Seq<char>)>
    decreases e.len(),
{
    if e.len() == 0 {
        None
    } else if e[0] == c {
        Some((Seq::<char>::empty(), e.drop_first()))
    } else {
        match split_once(e.drop_first(), c) {
            Some(parts) => Some((seq![e[0]] + parts.0, parts.1)),
            None => None,
        }
    }
}

/// The version of the first entry `name=version` whose name is `name`.
pub open spec fn lookup_version(entries: Seq<Seq<char>>, name: Seq<char>) -> Option<Seq<char>>
    decreases entries.len(),
{
    if entries.len() == 0 {
        None
    } else {
        match split_once(entries[0], '=') {
            Some(parts) => if parts.0 == name {
                Some(parts.1)
            } else {
                lookup_version(entries.drop_first(), name)
            },
            None => lookup_version(entries.drop_first(), name),
        }
    }
}

/// The dependencies whose versions the system tab lists, in order.
pub open spec fn main_dependencies() -> Seq<Seq<char>> {
    seq![
        "eframe"@,
        "egui"@,
        "egui_plot"@,
        "plotly"@,
        "rand"@,
        "rand_core"@,
        "rand_distr"@,
        "rand_chacha"@,
        "rand_pcg"@,
        "serde"@,
        "serde_json"@,
    ]
}

/// A line `name=version` for each of `names` that has an entry, in the order
/// of `names`.
pub open spec fn version_lines(names: Seq<Seq<char>>, entries: Seq<Seq<char>>) -> Seq<Seq<char>>
    decreases names.len(),
{
    if names.len() == 0 {
        Seq::<Seq<char>>::empty()
    } else {
        let rest = version_lines(names.drop_last(), entries);
        match lookup_version(entries, names.last()) {
            Some(v) => rest.push(names.last() + "="@ + v),
            None => rest,
        }
    }
}

/// Whether the entries record a version for `name`.
pub open spec fn has_entry(entries: Seq<Seq<char>>, name: Seq<char>) -> bool {
    lookup_version(entries, name) is Some
}

/// The line `name=version` for a dependency that has an entry.
pub open spec fn version_line(entries: Seq<Seq<char>>, name: Seq<char>) -> Seq<char> {
    name + "="@ + lookup_version(entries, name)->0
}

/// The lines are those of the names that have an entry, kept in order, each
/// turned into its line `name=version`.
proof fn lemma_version_lines_of_listed(names: Seq<Seq<char>>, entries: Seq<Seq<char>>)
    ensures
        version_lines(names, entries) == names.filter(|name: Seq<char>| has_entry(entries, name)).map_values(
            |name: Seq<char>| version_line(entries, name),
        ),
    decreases names.len(),
{
    let p = |name: Seq<char>| has_entry(entries, name);
    let f = |name: Seq<char>| version_line(entries, name);
    reveal(Seq::filter);
    if names.len() == 0 {
        assert(names.filter(p).map_values(f) =~= Seq::<Seq<char>>::empty());
    } else {
        lemma_version_lines_of_listed(names.drop_last(), entries);
        let shown = names.drop_last().filter(p);
        if p(names.last()) {
            assert(shown.push(names.last()).map_values(f) =~= shown.map_values(f).push(
                f(names.last()),
            ));
        }
    }
}

/// A name that has an entry gets its line.
proof fn lemma_version_lines_show(names: Seq<Seq<char>>, entries: Seq<Seq<char>>, k: int)
    requires
        0 <= k < names.len(),
        has_entry(entries, names[k]),
    ensures
        version_lines(names, entries).contains(version_line(entries, names[k])),
    decreases names.len(),
{
    let lines = version_lines(names, entries);
    let rest = version_lines(names.drop_last(), entries);
    if k == names.len() - 1 {
        assert(lines == rest.push(version_line(entries, names[k])));
        assert(lines[rest.len() as int] == version_line(entries, names[k]));
    } else {
        lemma_version_lines_show(names.drop_last(), entries, k);
        let j = choose|j: int| 0 <= j < rest.len() && rest[j] == version_line(entries, names[k]);
        assert(lines[j] == rest[j]);
    }
}

/// The system tab shows, in the order eframe, egui, egui_plot, plotly, rand,
/// rand_core, rand_distr, rand_chacha, rand_pcg, serde, serde_json, a line
/// `name=version` for each of these dependencies that has an entry, and no
/// other line.
pub proof fn lemma_main_dependency_lines(entries: Seq<Seq<char>>)
    ensures
        version_lines(main_dependencies(), entries) == seq![
            "eframe"@,
            "egui"@,
            "egui_plot"@,
            "plotly"@,
            "rand"@,
            "rand_core"@,
            "rand_distr"@,
            "rand_chacha"@,
            "rand_pcg"@,
            "serde"@,
            "serde_json"@,
        ].filter(|name: Seq<char>| has_entry(entries, name)).map_values(
            |name: Seq<char>| version_line(entries, name),
        ),
{
    lemma_version_lines_of_listed(main_dependencies(), entries);
}

/// Each of the main dependencies that has an entry `name=v` gets the line
/// `name=v` on the system tab.
pub proof fn lemma_main_dependency_shown(entries: Seq<Seq<char>>, name: Seq<char>, v: Seq<char>)
    requires
        name == "eframe"@ || name == "egui"@ || name == "egui_plot"@ || name == "plotly"@
            || name == "rand"@ || name == "rand_core"@ || name == "rand_distr"@ || name
            == "rand_chacha"@ || name == "rand_pcg"@ || name == "serde"@ || name
            == "serde_json"@,
        lookup_version(entries, name) == Some(v),
    ensures
        version_lines(main_dependencies(), entries).contains(name + "="@ + v),
{
    let names = main_dependencies();
    let k: int = if name == "eframe"@ {
        0
    } else if name == "egui"@ {
        1
    } else if name == "egui_plot"@ {
        2
    } else if name == "plotly"@ {
        3
    } else if name == "rand"@ {
        4
    } else if name == "rand_core"@ {
        5
    } else if name == "rand_distr"@ {
        6
    } else if name == "rand_chacha"@ {
        7
    } else if name == "rand_pcg"@ {
        8
    } else if name == "serde"@ {
        9
    } else {
        10
    };
    assert(names[k] == name);
    lemma_version_lines_show(names, entries, k);
}

proof fn lemma_split_once_at(e: Seq<char>, c: char, p: int)
    requires
        0 <= p <= e.len(),
        forall|j: int| 0 <= j < p ==> e[j] != c,
        p < e.len() ==> e[p] == c,
    ensures
        split_once(e, c) == (if p < e.len() {
            Some((e.take(p), e.skip(p + 1)))
        } else {
            None::<(Seq<char>, Seq<char>)>
        }),
    decreases p,
{
    if p == 0 {
        if e.len() > 0 {
            assert(e.take(0) =~= Seq::<char>::empty());
            assert(e.skip(1) =~= e.drop_first());
        }
    } else {
        let d = e.drop_first();
        assert forall|j: int| 0 <= j < p - 1 implies d[j] != c by {
            assert(d[j] == e[j + 1]);
        }
        lemma_split_once_at(d, c, p - 1);
        if p < e.len() {
            assert(seq![e[0]] + d.take(p - 1) =~= e.take(p));
            assert(d.skip(p) =~= e.skip(p + 1));
        }
    }
}

/// The characters of `cs` from position `lo` up to, not including, `hi`.
fn chars_between(cs: &Vec<char>, lo: usize, hi: usize) -> (r: Vec<char>)
    requires
        lo <= hi <= cs@.len(),
    ensures
        r@ == cs@.subrange(lo as int, hi as int),
{
    let mut r: Vec<char> = Vec::new();
    let mut i = lo;
    while i < hi
        invariant
            lo <= i <= hi,
            hi <= cs@.len(),
            r@ == cs@.subrange(lo as int, i as int),
        decreases hi - i,
    {
        r.push(cs[i]);
        assert(cs@.subrange(lo as int, i + 1) =~= cs@.subrange(lo as int, i as int).push(cs@[i as int]));
        i += 1;
    }
    r
}

/// The value, or `"unknown"` when it is missing.
fn or_unknown_string(value: Option<&str>) -> (r: String)
    ensures
        r@ == or_unknown(value),
{
    match value {
        Some(s) => s.to_owned(),
        None => "unknown".to_owned(),
    }
}

/// The version of `entry` when it reads `name=version` for the given name.
fn entry_version(entry: &String, name: &String) -> (r: Option<String>)
    ensures
        r matches Some(v) ==> split_once(entry@, '=') matches Some(parts) && parts.0 == name@
            && v@ == parts.1,
        r is None ==> !(split_once(entry@, '=') matches Some(parts) && parts.0 == name@),
{
    let cs = chars_of(entry.as_str());
    let n = cs.len();
    let mut p: usize = 0;
    while p < n && cs[p] != '='
        invariant
            p <= n,
            n == cs@.len(),
            forall|j: int| 0 <= j < p ==> cs@[j] != '=',
        decreases n - p,
    {
        p += 1;
    }
    proof {
        lemma_split_once_at(cs@, '=', p as int);
    }
    if p == n {
        return None;
    }
    let key = string_of(chars_between(&cs, 0, p).as_slice());
    proof {
        assert(cs@.subrange(0, p as int) =~= cs@.take(p as int));
    }
    if key == *name {
        let value = string_of(chars_between(&cs, p + 1, n).as_slice());
        proof {
            assert(cs@.subrange(p + 1, n as int) =~= cs@.skip(p + 1));
        }
        Some(value)
    } else {
        None
    }
}

impl BuildInfo {
    /// Build metadata from what the build environment provides: each missing
    /// value reads `"unknown"`, and the dependency list, `"unknown=unknown"`
    /// when missing, is parsed into its entries.
    pub fn new(env: &BuildEnvironment) -> (info: BuildInfo)
        ensures
            info.git_sha@ == or_unknown(env.git_sha),
            info.git_branch@ == or_unknown(env.git_branch),
            info.git_timestamp@ == or_unknown(env.git_timestamp),
            info.rustc_version@ == or_unknown(env.rustc_version),
            info.target_triple@ == or_unknown(env.target_triple),
            info.cargo_profile@ == or_unknown(env.cargo_profile),
            info.package_version@ == or_unknown(env.package_version),
            views(info.dependency_versions@) == dependency_entries(
                dependency_list_or_default(env.dependency_list),
            ),
    {
        let dependency_versions = match env.dependency_list {
            Some(list) => parse_dependency_list(list),
            None => parse_dependency_list("unknown=unknown"),
        };
        BuildInfo {
            git_sha: or_unknown_string(env.git_sha),
            git_branch: or_unknown_string(env.git_branch),
            git_timestamp: or_unknown_string(env.git_timestamp),
            rustc_version: or_unknown_string(env.rustc_version),
            target_triple: or_unknown_string(env.target_triple),
            cargo_profile: or_unknown_string(env.cargo_profile),
            package_version: or_unknown_string(env.package_version),
            dependency_versions,
        }
    }

    /// The version recorded for a dependency: that of the first entry
    /// `name=version` with the given name.
    pub fn dependency_version(&self, name: &str) -> (r: Option<String>)
        ensures
            r matches Some(v) ==> lookup_version(views(self.dependency_versions@), name@)
                == Some(v@),
            r is None ==> lookup_version(views(self.dependency_versions@), name@) is None,
    {
        let wanted = name.to_owned();
        let ghost all = views(self.dependency_versions@);
        let mut k: usize = 0;
        proof {
            assert(all.subrange(0, all.len() as int) =~= all);
        }
        while k < self.dependency_versions.len()
            invariant
                k <= self.dependency_versions@.len(),
                all == views(self.dependency_versions@),
                wanted@ == name@,
                lookup_version(all, name@) == lookup_version(all.subrange(k as int, all.len() as int), name@),
            decreases self.dependency_versions@.len() - k,
        {
            let ghost rest = all.subrange(k as int, all.len() as int);
            proof {
                assert(rest[0] == self.dependency_versions@[k as int]@);
                assert(rest.drop_first() =~= all.subrange(k + 1, all.len() as int));
            }
            match entry_version(&self.dependency_versions[k], &wanted) {
                Some(v) => {
                    return Some(v);
                },
                None => {},
            }
            k += 1;
        }
        None
    }

    /// The lines `name=version` of the main dependencies that have an entry,
    /// in the order of the main dependency list.
    pub fn main_dependency_lines(&self) -> (lines: Vec<String>)
        ensures
            views(lines@) == version_lines(main_dependencies(), views(self.dependency_versions@)),
    {
        let names: Vec<&str> = vec![
            "eframe",
            "egui",
            "egui_plot",
            "plotly",
            "rand",
            "rand_core",
            "rand_distr",
            "rand_chacha",
            "rand_pcg",
            "serde",
            "serde_json",
        ];
        let ghost all = main_dependencies();
        proof {
            assert(names@.map_values(|s: &str| s@) =~= all);
        }
        let mut lines: Vec<String> = Vec::new();
        let mut k: usize = 0;
        while k < names.len()
            invariant
                k <= names@.len(),
                names@.len() == all.len(),
                all == main_dependencies(),
                forall|j: int| 0 <= j < names@.len() ==> names@[j]@ == #[trigger] all[j],
                views(lines@) == version_lines(all.take(k as int), views(self.dependency_versions@)),
            decreases names@.len() - k,
        {
            let ghost before = views(lines@);
            proof {
                assert(all.take(k + 1).drop_last() =~= all.take(k as int));
                assert(all.take(k + 1).last() == names@[k as int]@);
            }
            match self.dependency_version(names[k]) {
                Some(v) => {
                    let mut line = names[k].to_owned();
                    line.append("=");
                    line.append(v.as_str());
                    lines.push(line);
                    proof {
                        assert(views(lines@) =~= before.push(line@));
                    }
                },
                None => {},
            }
            k += 1;
        }
        proof {
            assert(all.take(names@.len() as int) =~= all);
        }
        lines
    }
}

} // verus!
