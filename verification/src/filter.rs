//! Fuzzy ranking of the unit list and the cycle of unit-type filters.

use vstd::prelude::*;
use vstd::string::*;
use vstd::utf8::encode_utf8;
use nucleo_matcher::pattern::{Atom, AtomKind, CaseMatching, Normalization};
use nucleo_matcher::{Config, Matcher, Utf32Str};
use crate::text::{push_str, str_eq};
use crate::units::{UnitEntry, UnitEntryView};

verus! {

/// The score that nucleo's fuzzy matcher gives `haystack` for the pattern
/// `query` (smart case, smart normalisation, fuzzy kind), or `None` when the
/// pattern does not match.
pub uninterp spec fn fuzzy_score_of(query: Seq<char>, haystack: Seq<char>) -> Option<u16>;

/// Whether nucleo can match against `haystack`: it refuses haystacks of
/// more than `u32::MAX` code points, and the UTF-8 length bounds that count.
pub open spec fn fits_matcher(haystack: Seq<char>) -> bool {
    encode_utf8(haystack).len() <= u32::MAX
}

/// Scores `haystack` against the fuzzy pattern `query` with a fresh
/// `nucleo_matcher::Matcher` (default configuration) and an `Atom` built by
/// `Atom::new(query, CaseMatching::Smart, Normalization::Smart,
/// AtomKind::Fuzzy, false)`; `Atom::score` returns the score, or `None` when
/// the pattern does not match. The score depends on the two texts alone.
#[verifier::external_body]
fn fuzzy_score(query: &str, haystack: &str) -> (r: Option<u16>)
    requires
        fits_matcher(haystack@),
    ensures
        r == fuzzy_score_of(query@, haystack@),
{
    let mut matcher = Matcher::new(Config::DEFAULT);
    let pattern = Atom::new(query, CaseMatching::Smart, Normalization::Smart, AtomKind::Fuzzy, false);
    let mut buf = Vec::new();
    pattern.score(Utf32Str::new(haystack, &mut buf), &mut matcher)
}

/// The text an entry is matched on: its name, its description and its type
/// written `t:<type>`, separated by single spaces, so that a `t:service`
/// hint in the query matches the units of that type.
pub open spec fn haystack_of(e: UnitEntryView) -> Seq<char> {
    e.name + " "@ + e.description + " t:"@ + e.unit_type
}

/// The entries at `idx` that the query matches, with their scores, in the
/// order of `idx`.
pub open spec fn scored_of(query: Seq<char>, entries: Seq<UnitEntryView>, idx: Seq<usize>) -> Seq<
    (usize, u16),
>
    decreases idx.len(),
{
    if idx.len() == 0 {
        seq![]
    } else {
        let rest = scored_of(query, entries, idx.drop_last());
        let i = idx.last();
        match fuzzy_score_of(query, haystack_of(entries[i as int])) {
            Some(sc) => rest.push((i, sc)),
            None => rest,
        }
    }
}

/// `x` put into `s` just after the last element whose score is at least
/// that of `x`, looking from the end of `s`.
pub open spec fn insert_by_score(s: Seq<(usize, u16)>, x: (usize, u16)) -> Seq<(usize, u16)>
    decreases s.len(),
{
    if s.len() == 0 || s.last().1 >= x.1 {
        s.push(x)
    } else {
        insert_by_score(s.drop_last(), x).push(s.last())
    }
}

/// `s` sorted by descending score, keeping the order of equal scores (the
/// order `sort_by_key` with a reversed key gives).
pub open spec fn sort_by_score(s: Seq<(usize, u16)>) -> Seq<(usize, u16)>
    decreases s.len(),
{
    if s.len() == 0 {
        seq![]
    } else {
        insert_by_score(sort_by_score(s.drop_last()), s.last())
    }
}

/// The first components of the pairs in `s`.
pub open spec fn firsts(s: Seq<(usize, u16)>) -> Seq<usize> {
    s.map_values(|p: (usize, u16)| p.0)
}

/// What `rank` returns: the indices unchanged for an empty query; else the
/// indices whose entry the query matches, best score first, ties in the
/// order of `idx`.
pub open spec fn ranked(query: Seq<char>, entries: Seq<UnitEntryView>, idx: Seq<usize>) -> Seq<
    usize,
> {
    if query.len() == 0 {
        idx
    } else {
        firsts(sort_by_score(scored_of(query, entries, idx)))
    }
}

/// The condition under which `rank` can match: every index in range and
/// every entry it names small enough for the matcher.
pub open spec fn rank_ready(query: Seq<char>, entries: Seq<UnitEntryView>, idx: Seq<usize>) -> bool {
    query.len() > 0 ==> forall|k: int|
        0 <= k < idx.len() ==> (#[trigger] idx[k] < entries.len() && fits_matcher(
            haystack_of(entries[idx[k] as int]),
        ))
}

proof fn lemma_insert_at(s: Seq<(usize, u16)>, x: (usize, u16), j: int)
    requires
        0 <= j <= s.len(),
        forall|k: int| j <= k < s.len() ==> #[trigger] s[k].1 < x.1,
        j > 0 ==> s[j - 1].1 >= x.1,
    ensures
        insert_by_score(s, x) == s.take(j).push(x) + s.skip(j),
    decreases s.len() - j,
{
    if j == s.len() {
        assert(s.take(j) =~= s);
        assert(s.skip(j) =~= seq![]);
        assert(s.take(j).push(x) + s.skip(j) =~= s.push(x));
    } else {
        let p = s.drop_last();
        assert forall|k: int| j <= k < p.len() implies #[trigger] p[k].1 < x.1 by {
            assert(p[k] == s[k]);
        }
        lemma_insert_at(p, x, j);
        assert(p.take(j) =~= s.take(j));
        assert((p.take(j).push(x) + p.skip(j)).push(s.last()) =~= s.take(j).push(x) + s.skip(j));
    }
}

fn haystack(e: &UnitEntry) -> (h: String)
    ensures
        h@ == haystack_of(e@),
{
    let mut h = String::new();
    push_str(&mut h, e.name.as_str());
    push_str(&mut h, " ");
    push_str(&mut h, e.description.as_str());
    push_str(&mut h, " t:");
    push_str(&mut h, e.unit_type.as_str());
    h
}

/// Ranks `indices` (into `entries`) by fuzzy match against `query`.
/// Returns all indices when the query is empty, in their order; otherwise
/// only the indices whose entry matches, best first, equal scores in their
/// order. The type is part of the matched text as `t:<type>`, so that
/// `t:service` hints work.
pub fn rank(query: &str, entries: &[UnitEntry], indices: &[usize]) -> (r: Vec<usize>)
    requires
        rank_ready(query@, entries@.map_values(|e: UnitEntry| e@), indices@),
    ensures
        r@ == ranked(query@, entries@.map_values(|e: UnitEntry| e@), indices@),
{
    let ghost ev = entries@.map_values(|e: UnitEntry| e@);
    if query.is_empty() {
        let mut all: Vec<usize> = Vec::new();
        let mut k: usize = 0;
        while k < indices.len()
            invariant
                k <= indices@.len(),
                all@ == indices@.take(k as int),
            decreases indices@.len() - k,
        {
            all.push(indices[k]);
            k = k + 1;
            assert(all@ =~= indices@.take(k as int));
        }
        assert(indices@.take(indices@.len() as int) =~= indices@);
        return all;
    }
    // Score every index, keeping those that match.
    let mut scored: Vec<(usize, u16)> = Vec::new();
    let mut k: usize = 0;
    while k < indices.len()
        invariant
            k <= indices@.len(),
            query@.len() > 0,
            ev == entries@.map_values(|e: UnitEntry| e@),
            rank_ready(query@, ev, indices@),
            scored@ == scored_of(query@, ev, indices@.take(k as int)),
        decreases indices@.len() - k,
    {
        let i = indices[k];
        assert(indices@[k as int] == i);
        assert(i < entries@.len() && fits_matcher(haystack_of(ev[i as int])));
        let h = haystack(&entries[i]);
        let ghost pre = indices@.take(k as int);
        assert(indices@.take(k + 1).drop_last() =~= pre);
        match fuzzy_score(query, h.as_str()) {
            Some(sc) => {
                scored.push((i, sc));
            },
            None => {},
        }
        k = k + 1;
    }
    assert(indices@.take(indices@.len() as int) =~= indices@);
    order_by_score(scored)
}

/// The indices of `scored`, best score first, equal scores in the order
/// they are given (a stable sort by descending score).
pub fn order_by_score(scored: Vec<(usize, u16)>) -> (r: Vec<usize>)
    ensures
        r@ == firsts(sort_by_score(scored@)),
{
    // Insertion sort by descending score; an element goes after every
    // element whose score is at least its own, which keeps ties in order.
    let mut sorted: Vec<(usize, u16)> = Vec::new();
    let mut m: usize = 0;
    while m < scored.len()
        invariant
            m <= scored@.len(),
            sorted@ == sort_by_score(scored@.take(m as int)),
        decreases scored@.len() - m,
    {
        let x = scored[m];
        let mut j: usize = sorted.len();
        while j > 0 && sorted[j - 1].1 < x.1
            invariant
                j <= sorted@.len(),
                forall|q: int| j <= q < sorted@.len() ==> #[trigger] sorted@[q].1 < x.1,
            decreases j,
        {
            j = j - 1;
        }
        proof {
            lemma_insert_at(sorted@, x, j as int);
            assert(scored@.take(m + 1).drop_last() =~= scored@.take(m as int));
            assert(scored@.take(m + 1).last() == x);
        }
        let ghost before = sorted@;
        sorted.insert(j, x);
        assert(sorted@ =~= before.take(j as int).push(x) + before.skip(j as int));
        m = m + 1;
    }
    assert(scored@.take(scored@.len() as int) =~= scored@);
    let mut out: Vec<usize> = Vec::new();
    let mut q: usize = 0;
    while q < sorted.len()
        invariant
            q <= sorted@.len(),
            out@ == firsts(sorted@.take(q as int)),
        decreases sorted@.len() - q,
    {
        out.push(sorted[q].0);
        q = q + 1;
        assert(out@ =~= firsts(sorted@.take(q as int)));
    }
    assert(sorted@.take(sorted@.len() as int) =~= sorted@);
    out
}

} // verus!

verus! {

/// Whether the scores in `s` never increase.
pub open spec fn descending(s: Seq<(usize, u16)>) -> bool {
    forall|i: int, j: int| 0 <= i < j < s.len() ==> #[trigger] s[i].1 >= #[trigger] s[j].1
}

/// The elements of `s` with score `v`, in order.
pub open spec fn with_score(s: Seq<(usize, u16)>, v: u16) -> Seq<(usize, u16)>
    decreases s.len(),
{
    if s.len() == 0 {
        seq![]
    } else if s.last().1 == v {
        with_score(s.drop_last(), v).push(s.last())
    } else {
        with_score(s.drop_last(), v)
    }
}

proof fn lemma_insert_bound(t: Seq<(usize, u16)>, x: (usize, u16), b: u16)
    requires
        forall|k: int| 0 <= k < t.len() ==> #[trigger] t[k].1 >= b,
        x.1 >= b,
    ensures
        insert_by_score(t, x).len() == t.len() + 1,
        forall|k: int| 0 <= k < insert_by_score(t, x).len() ==> #[trigger] insert_by_score(t, x)[k].1 >= b,
    decreases t.len(),
{
    if !(t.len() == 0 || t.last().1 >= x.1) {
        let p = t.drop_last();
        assert forall|k: int| 0 <= k < p.len() implies #[trigger] p[k].1 >= b by {
            assert(p[k] == t[k]);
        }
        lemma_insert_bound(p, x, b);
    }
}

proof fn lemma_insert_descending(t: Seq<(usize, u16)>, x: (usize, u16))
    requires
        descending(t),
    ensures
        descending(insert_by_score(t, x)),
    decreases t.len(),
{
    let r = insert_by_score(t, x);
    if t.len() == 0 || t.last().1 >= x.1 {
        assert forall|i: int, j: int| 0 <= i < j < r.len() implies #[trigger] r[i].1 >= #[trigger] r[j].1 by {
            if j == t.len() {
                if i < t.len() - 1 {
                    assert(t[i].1 >= t[t.len() - 1].1);
                }
            } else {
                assert(r[i] == t[i] && r[j] == t[j]);
            }
        }
    } else {
        let p = t.drop_last();
        let l = t.last();
        assert(descending(p)) by {
            assert forall|i: int, j: int| 0 <= i < j < p.len() implies #[trigger] p[i].1 >= #[trigger] p[j].1 by {
                assert(p[i] == t[i] && p[j] == t[j]);
            }
        }
        lemma_insert_descending(p, x);
        assert forall|k: int| 0 <= k < p.len() implies #[trigger] p[k].1 >= l.1 by {
            assert(p[k] == t[k]);
            assert(t[k].1 >= t[t.len() - 1].1);
        }
        lemma_insert_bound(p, x, l.1);
        let q = insert_by_score(p, x);
        assert(r == q.push(l));
        assert forall|i: int, j: int| 0 <= i < j < r.len() implies #[trigger] r[i].1 >= #[trigger] r[j].1 by {
            if j == q.len() {
                assert(r[i] == q[i]);
            } else {
                assert(r[i] == q[i] && r[j] == q[j]);
            }
        }
    }
}

/// Ranking sorts by score: the scores of `sort_by_score(s)` never increase.
pub proof fn lemma_sort_by_score_descending(s: Seq<(usize, u16)>)
    ensures
        descending(sort_by_score(s)),
        sort_by_score(s).len() == s.len(),
    decreases s.len(),
{
    if s.len() > 0 {
        lemma_sort_by_score_descending(s.drop_last());
        lemma_insert_descending(sort_by_score(s.drop_last()), s.last());
        lemma_insert_bound(sort_by_score(s.drop_last()), s.last(), 0);
    }
}

proof fn lemma_insert_multiset(t: Seq<(usize, u16)>, x: (usize, u16))
    ensures
        insert_by_score(t, x).to_multiset() =~= t.to_multiset().insert(x),
    decreases t.len(),
{
    broadcast use vstd::seq_lib::group_to_multiset_ensures;

    if !(t.len() == 0 || t.last().1 >= x.1) {
        let p = t.drop_last();
        lemma_insert_multiset(p, x);
        assert(p.push(t.last()) =~= t);
    }
}

/// Ranking loses and adds nothing: `sort_by_score(s)` holds the elements of
/// `s`, each as often.
pub proof fn lemma_sort_by_score_permutes(s: Seq<(usize, u16)>)
    ensures
        sort_by_score(s).to_multiset() =~= s.to_multiset(),
    decreases s.len(),
{
    broadcast use vstd::seq_lib::group_to_multiset_ensures;

    if s.len() > 0 {
        lemma_sort_by_score_permutes(s.drop_last());
        lemma_insert_multiset(sort_by_score(s.drop_last()), s.last());
        assert(s.drop_last().push(s.last()) =~= s);
    }
}

proof fn lemma_insert_with_score(t: Seq<(usize, u16)>, x: (usize, u16), v: u16)
    ensures
        with_score(insert_by_score(t, x), v) == if x.1 == v {
            with_score(t, v).push(x)
        } else {
            with_score(t, v)
        },
    decreases t.len(),
{
    if t.len() == 0 || t.last().1 >= x.1 {
        assert(t.push(x).drop_last() =~= t);
    } else {
        let p = t.drop_last();
        lemma_insert_with_score(p, x, v);
        let q = insert_by_score(p, x);
        assert(q.push(t.last()).drop_last() =~= q);
    }
}

/// Ranking is stable: for every score, the elements with that score come
/// out of `sort_by_score` in the order they came in.
pub proof fn lemma_sort_by_score_stable(s: Seq<(usize, u16)>, v: u16)
    ensures
        with_score(sort_by_score(s), v) == with_score(s, v),
    decreases s.len(),
{
    if s.len() > 0 {
        lemma_sort_by_score_stable(s.drop_last(), v);
        lemma_insert_with_score(sort_by_score(s.drop_last()), s.last(), v);
    }
}

} // verus!

verus! {

/// The unit-type filters that the type key cycles through; `None` shows
/// every type.
pub open spec fn type_cycle_spec() -> Seq<Option<Seq<char>>> {
    seq![
        None,
        Some("service"@),
        Some("socket"@),
        Some("timer"@),
        Some("target"@),
        Some("mount"@),
        Some("path"@),
    ]
}

/// The number of filters in the type cycle.
pub const TYPE_CYCLE_LEN: usize = 7;

/// The first position of `t` in the type cycle, or 0 when it is not there.
pub open spec fn cycle_pos(t: Option<Seq<char>>) -> int {
    if t == type_cycle_spec()[0] {
        0
    } else if t == type_cycle_spec()[1] {
        1
    } else if t == type_cycle_spec()[2] {
        2
    } else if t == type_cycle_spec()[3] {
        3
    } else if t == type_cycle_spec()[4] {
        4
    } else if t == type_cycle_spec()[5] {
        5
    } else if t == type_cycle_spec()[6] {
        6
    } else {
        0
    }
}

/// The filter after `t` in the cycle; after the last comes `None`, and a
/// filter that is not in the cycle is followed by the first type.
pub open spec fn next_type_spec(t: Option<Seq<char>>) -> Option<Seq<char>> {
    type_cycle_spec()[(cycle_pos(t) + 1) % 7]
}

/// The view of an optional string.
pub open spec fn opt_str_view(t: Option<String>) -> Option<Seq<char>> {
    match t {
        Some(s) => Some(s@),
        None => None,
    }
}

fn opt_owned(s: Option<&str>) -> (r: Option<String>)
    ensures
        opt_str_view(r) == match s {
            Some(x) => Some(x@),
            None => None,
        },
{
    match s {
        Some(x) => Some(String::from_str(x)),
        None => None,
    }
}

fn cycle_entry(k: usize) -> (r: Option<&'static str>)
    requires
        k < TYPE_CYCLE_LEN,
    ensures
        match r {
            Some(x) => Some(x@),
            None => None,
        } == type_cycle_spec()[k as int],
{
    if k == 0 {
        None
    } else if k == 1 {
        Some("service")
    } else if k == 2 {
        Some("socket")
    } else if k == 3 {
        Some("timer")
    } else if k == 4 {
        Some("target")
    } else if k == 5 {
        Some("mount")
    } else {
        Some("path")
    }
}

/// The filters of the type cycle, in order.
pub fn type_cycle() -> (r: Vec<Option<String>>)
    ensures
        r@.map_values(|t: Option<String>| opt_str_view(t)) == type_cycle_spec(),
        r@.len() == TYPE_CYCLE_LEN,
{
    let mut r: Vec<Option<String>> = Vec::new();
    let mut k: usize = 0;
    while k < TYPE_CYCLE_LEN
        invariant
            k <= TYPE_CYCLE_LEN,
            r@.map_values(|t: Option<String>| opt_str_view(t)) == type_cycle_spec().take(k as int),
        decreases TYPE_CYCLE_LEN - k,
    {
        let ghost before = r@.map_values(|t: Option<String>| opt_str_view(t));
        let e = opt_owned(cycle_entry(k));
        r.push(e);
        assert(r@.map_values(|t: Option<String>| opt_str_view(t)) =~= before.push(opt_str_view(e)));
        k = k + 1;
        assert(r@.map_values(|t: Option<String>| opt_str_view(t)) =~= type_cycle_spec().take(k as int));
    }
    assert(type_cycle_spec().take(7) =~= type_cycle_spec());
    r
}

fn matches_entry(current: &Option<String>, k: usize) -> (r: bool)
    requires
        k < TYPE_CYCLE_LEN,
    ensures
        r == (opt_str_view(*current) == type_cycle_spec()[k as int]),
{
    match (current, cycle_entry(k)) {
        (None, None) => true,
        (Some(s), Some(t)) => str_eq(s.as_str(), t),
        _ => false,
    }
}

/// The type filter after `current` in the cycle.
pub fn next_type(current: &Option<String>) -> (r: Option<String>)
    ensures
        opt_str_view(r) == next_type_spec(opt_str_view(*current)),
{
    let mut k: usize = 0;
    while k < TYPE_CYCLE_LEN && !matches_entry(current, k)
        invariant
            k <= TYPE_CYCLE_LEN,
            forall|q: int| 0 <= q < k ==> opt_str_view(*current) != #[trigger] type_cycle_spec()[q],
        decreases TYPE_CYCLE_LEN - k,
    {
        k = k + 1;
    }
    let pos = if k < TYPE_CYCLE_LEN {
        k
    } else {
        0
    };
    assert(pos == cycle_pos(opt_str_view(*current)));
    opt_owned(cycle_entry((pos + 1) % TYPE_CYCLE_LEN))
}

} // verus!

verus! {

/// The filter reached from `t` by pressing the type key `n` times.
pub open spec fn iterate_next_type(t: Option<Seq<char>>, n: nat) -> Option<Seq<char>>
    decreases n,
{
    if n == 0 {
        t
    } else {
        iterate_next_type(next_type_spec(t), (n - 1) as nat)
    }
}

proof fn lemma_cycle_pos_of_member(k: int)
    requires
        0 <= k < 7,
    ensures
        cycle_pos(type_cycle_spec()[k]) == k,
{
    reveal_strlit("service");
    reveal_strlit("socket");
    reveal_strlit("timer");
    reveal_strlit("target");
    reveal_strlit("mount");
    reveal_strlit("path");
    let c = type_cycle_spec();
    assert(c[1] != c[2] && c[1] != c[3] && c[1] != c[4] && c[1] != c[5] && c[1] != c[6]) by {
        assert(c[1]->0[1] != c[2]->0[1] || c[1]->0.len() != c[2]->0.len());
        assert(c[1]->0.len() != c[3]->0.len());
        assert(c[1]->0.len() != c[4]->0.len());
        assert(c[1]->0.len() != c[5]->0.len());
        assert(c[1]->0.len() != c[6]->0.len());
    }
    assert(c[2] != c[3] && c[2] != c[4] && c[2] != c[5] && c[2] != c[6]) by {
        assert(c[2]->0.len() != c[3]->0.len());
        assert(c[2]->0[0] != c[4]->0[0]);
        assert(c[2]->0.len() != c[5]->0.len());
        assert(c[2]->0.len() != c[6]->0.len());
    }
    assert(c[3] != c[4] && c[3] != c[5] && c[3] != c[6]) by {
        assert(c[3]->0[1] != c[4]->0[1]);
        assert(c[3]->0[0] != c[5]->0[0]);
        assert(c[3]->0.len() != c[6]->0.len());
    }
    assert(c[4] != c[5] && c[4] != c[6]) by {
        assert(c[4]->0[0] != c[5]->0[0]);
        assert(c[4]->0.len() != c[6]->0.len());
    }
    assert(c[5] != c[6]) by {
        assert(c[5]->0.len() != c[6]->0.len());
    }
}

proof fn lemma_iterate_from_member(k: int, n: nat)
    requires
        0 <= k < 7,
    ensures
        iterate_next_type(type_cycle_spec()[k], n) == type_cycle_spec()[(k + n) % 7],
    decreases n,
{
    if n > 0 {
        lemma_cycle_pos_of_member(k);
        let k2 = (k + 1) % 7;
        lemma_iterate_from_member(k2, (n - 1) as nat);
        assert((k2 + (n - 1)) % 7 == (k + n) % 7);
    } else {
        assert((k + 0) % 7 == k);
    }
}

/// Pressing the type key as many times as the cycle has filters brings
/// back the filter one started from.
pub proof fn lemma_type_cycle_wraps(t: Option<Seq<char>>)
    requires
        type_cycle_spec().contains(t),
    ensures
        iterate_next_type(t, TYPE_CYCLE_LEN as nat) == t,
{
    let k = choose|k: int| 0 <= k < 7 && type_cycle_spec()[k] == t;
    lemma_iterate_from_member(k, 7);
    assert((k + 7) % 7 == k);
}

/// From "all types" the type key selects services first.
pub proof fn lemma_next_type_from_none()
    ensures
        next_type_spec(None) == Some("service"@),
{
}

} // verus!

verus! {

proof fn lemma_scored_members(query: Seq<char>, entries: Seq<UnitEntryView>, idx: Seq<usize>)
    ensures
        forall|k: int|
            0 <= k < scored_of(query, entries, idx).len() ==> idx.contains(
                #[trigger] scored_of(query, entries, idx)[k].0,
            ),
    decreases idx.len(),
{
    if idx.len() > 0 {
        let p = idx.drop_last();
        lemma_scored_members(query, entries, p);
        let s = scored_of(query, entries, idx);
        let sp = scored_of(query, entries, p);
        assert forall|k: int| 0 <= k < s.len() implies idx.contains(#[trigger] s[k].0) by {
            if k < sp.len() {
                assert(s[k] == sp[k]);
                let j = choose|j: int| 0 <= j < p.len() && p[j] == sp[k].0;
                assert(idx[j] == p[j]);
            } else {
                assert(s[k].0 == idx[idx.len() - 1]);
            }
        }
    }
}

/// Ranking only keeps indices it was given: every index that `rank`
/// returns is one of `idx`.
pub proof fn lemma_ranked_within(query: Seq<char>, entries: Seq<UnitEntryView>, idx: Seq<usize>)
    ensures
        forall|k: int|
            0 <= k < ranked(query, entries, idx).len() ==> idx.contains(
                #[trigger] ranked(query, entries, idx)[k],
            ),
{
    broadcast use vstd::seq_lib::group_to_multiset_ensures;

    if query.len() > 0 {
        let s = scored_of(query, entries, idx);
        let t = sort_by_score(s);
        lemma_scored_members(query, entries, idx);
        lemma_sort_by_score_permutes(s);
        lemma_sort_by_score_descending(s);
        assert forall|k: int| 0 <= k < ranked(query, entries, idx).len() implies idx.contains(
            #[trigger] ranked(query, entries, idx)[k],
        ) by {
            assert(t.contains(t[k]));
            assert(t.to_multiset().count(t[k]) > 0);
            assert(s.contains(t[k]));
            let j = choose|j: int| 0 <= j < s.len() && s[j] == t[k];
            assert(idx.contains(s[j].0));
        }
    }
}

} // verus!

verus! {

/// The cycle holds no filter twice.
proof fn lemma_cycle_distinct(i: int, j: int)
    requires
        0 <= i < 7,
        0 <= j < 7,
        i != j,
    ensures
        type_cycle_spec()[i] != type_cycle_spec()[j],
{
    lemma_cycle_pos_of_member(i);
    lemma_cycle_pos_of_member(j);
}

/// The cycle is no shorter than its length: from any filter of the cycle,
/// fewer presses than the cycle has filters never bring it back.
pub proof fn lemma_type_cycle_no_shorter(t: Option<Seq<char>>, n: nat)
    requires
        type_cycle_spec().contains(t),
        0 < n < TYPE_CYCLE_LEN,
    ensures
        iterate_next_type(t, n) != t,
{
    let k = choose|k: int| 0 <= k < 7 && type_cycle_spec()[k] == t;
    lemma_iterate_from_member(k, n);
    assert((k + n) % 7 != k);
    lemma_cycle_distinct((k + n) % 7, k);
}

} // verus!
