//! The filtering and ordering shared by the listing of installed versions
//! and of the release catalog.
use std::cmp::Ordering;
use vstd::prelude::*;
use crate::text::{chars_of, ends_with, starts_with, starts_with_chars};
use crate::version::{
    cmp_versions, get_real_version, is_stable, is_stable_version, lemma_version_cmp_antisymmetric,
    lemma_version_cmp_transitive, normalized, version_cmp,
};

verus! {

/// A release of the catalog: its version and the URL of its archive.
#[derive(Debug)]
pub struct FilteredRelease {
    pub version: String,
    pub url: String,
}

/// Something that carries a version string.
pub trait Versioned {
    spec fn version_view(&self) -> Seq<char>;

    fn version_str(&self) -> (r: &str)
        ensures
            r@ == self.version_view(),
    ;
}

impl Versioned for String {
    open spec fn version_view(&self) -> Seq<char> {
        self@
    }

    fn version_str(&self) -> (r: &str) {
        self.as_str()
    }
}

impl Versioned for FilteredRelease {
    open spec fn version_view(&self) -> Seq<char> {
        self.version@
    }

    fn version_str(&self) -> (r: &str) {
        self.version.as_str()
    }
}

/// The versions of a sequence of items.
pub open spec fn versions_of<T: Versioned>(s: Seq<T>) -> Seq<Seq<char>> {
    s.map_values(|t: T| t.version_view())
}

/// Every earlier version sorts no later than every later one.
pub open spec fn sorted_by_version(s: Seq<Seq<char>>) -> bool {
    forall|i: int, j: int|
        0 <= i < j < s.len() ==> version_cmp(#[trigger] s[i], #[trigger] s[j]) != Ordering::Greater
}

/// The filter as it is applied: normalized to the canonical form.
pub open spec fn effective_filter(filter: Option<Seq<char>>) -> Option<Seq<char>> {
    match filter {
        Some(f) => Some(normalized(f)),
        None => None,
    }
}

/// Whether a version passes a filter (already normalized): a filter that
/// ends in `*` keeps the versions that start with what precedes the `*`,
/// any other keeps the exact match.
pub open spec fn matches_filter(filter: Option<Seq<char>>, v: Seq<char>) -> bool {
    match filter {
        None => true,
        Some(f) => if ends_with(f, seq!['*']) {
            starts_with(v, f.drop_last())
        } else {
            v == f
        },
    }
}

/// Whether a version survives the listing's filter and stability flag.
pub open spec fn keeps(filter: Option<Seq<char>>, stable_only: bool, v: Seq<char>) -> bool {
    (!stable_only || is_stable(v)) && matches_filter(effective_filter(filter), v)
}

/// The option's string as a character sequence.
pub open spec fn option_view(o: Option<String>) -> Option<Seq<char>> {
    match o {
        Some(s) => Some(s@),
        None => None,
    }
}

/// The items of `s` that survive the filter, in their order.
pub open spec fn kept<T: Versioned>(s: Seq<T>, filter: Option<Seq<char>>, stable_only: bool) -> Seq<T> {
    s.filter(|t: T| keeps(filter, stable_only, t.version_view()))
}

/// Whether `v` passes the (normalized) filter `f`.
fn filter_matches(f: &Option<Vec<char>>, v: &str) -> (r: bool)
    ensures
        r == matches_filter(
            match f {
                Some(c) => Some(c@),
                None => None,
            },
            v@,
        ),
{
    match f {
        None => true,
        Some(fc) => {
            let vc = chars_of(v);
            let n = fc.len();
            if n > 0 && fc[n - 1] == '*' {
                assert(fc@.subrange(n - 1, n as int) =~= seq!['*']);
                let mut prefix: Vec<char> = Vec::new();
                let mut i: usize = 0;
                while i < n - 1
                    invariant
                        n == fc@.len(),
                        n > 0,
                        i <= n - 1,
                        prefix@ =~= fc@.subrange(0, i as int),
                    decreases n - 1 - i,
                {
                    prefix.push(fc[i]);
                    i = i + 1;
                }
                assert(prefix@ =~= fc@.drop_last());
                starts_with_chars(&vc, &prefix)
            } else {
                assert(!ends_with(fc@, seq!['*'])) by {
                    if n > 0 {
                        assert(fc@.subrange(n - 1, n as int)[0] == fc@[n - 1]);
                    }
                }
                if vc.len() != n {
                    return false;
                }
                let mut i: usize = 0;
                while i < n
                    invariant
                        n == fc@.len(),
                        n == vc@.len(),
                        vc@ == v@,
                        *f == Some(*fc),
                        !ends_with(fc@, seq!['*']),
                        i <= n,
                        forall|k: int| 0 <= k < i ==> vc@[k] == fc@[k],
                    decreases n - i,
                {
                    if vc[i] != fc[i] {
                        assert(vc@[i as int] != fc@[i as int]);
                        return false;
                    }
                    i = i + 1;
                }
                assert(vc@ =~= fc@);
                true
            }
        },
    }
}

/// Where `x` goes in `s`: before the first item that sorts after it.
pub open spec fn insert_position<T: Versioned>(s: Seq<T>, x: T) -> nat
    decreases s.len(),
{
    if s.len() == 0 {
        0
    } else if version_cmp(x.version_view(), s[0].version_view()) == Ordering::Less {
        0
    } else {
        1 + insert_position(s.drop_first(), x)
    }
}

/// The stable sort by version: the items are taken in order, each placed
/// before the first of the earlier ones that sorts after it, so items that
/// compare equal keep their order.
pub open spec fn stable_sorted<T: Versioned>(s: Seq<T>) -> Seq<T>
    decreases s.len(),
{
    if s.len() == 0 {
        s
    } else {
        let t = stable_sorted(s.drop_last());
        t.insert(insert_position(t, s.last()) as int, s.last())
    }
}

/// Inserts `x` into the sorted `out` after every item that sorts no later than it.
fn insert_sorted<T: Versioned>(out: &mut Vec<T>, x: T)
    requires
        sorted_by_version(versions_of(old(out)@)),
    ensures
        sorted_by_version(versions_of(final(out)@)),
        final(out)@.to_multiset() == old(out)@.to_multiset().insert(x),
        insert_position(old(out)@, x) <= old(out)@.len(),
        final(out)@ == old(out)@.insert(insert_position(old(out)@, x) as int, x),
{
    let ghost v0 = versions_of(out@);
    let ghost s0 = out@;
    let mut p: usize = 0;
    assert(s0.subrange(0, s0.len() as int) =~= s0);
    loop
        invariant
            out@ == old(out)@,
            s0 == out@,
            v0 == versions_of(out@),
            p <= out@.len(),
            insert_position(s0, x) == p + insert_position(s0.subrange(p as int, s0.len() as int), x),
            forall|k: int| 0 <= k < p ==> version_cmp(x.version_view(), #[trigger] v0[k]) != Ordering::Less,
        ensures
            p <= out@.len(),
            insert_position(s0, x) == p,
            p < out@.len() ==> version_cmp(x.version_view(), v0[p as int]) == Ordering::Less,
            forall|k: int| 0 <= k < p ==> version_cmp(x.version_view(), #[trigger] v0[k]) != Ordering::Less,
        decreases out@.len() - p,
    {
        let ghost rest = s0.subrange(p as int, s0.len() as int);
        if p == out.len() {
            break;
        }
        assert(rest[0] == s0[p as int]);
        if matches!(cmp_versions(x.version_str(), out[p].version_str()), Ordering::Less) {
            break;
        }
        assert(rest.drop_first() =~= s0.subrange(p + 1, s0.len() as int));
        p = p + 1;
    }
    proof {
        broadcast use vstd::seq_lib::to_multiset_insert;
        let xv = x.version_view();
        assert forall|k: int| 0 <= k < p implies version_cmp(v0[k], xv) != Ordering::Greater by {
            lemma_version_cmp_antisymmetric(xv, v0[k]);
        }
        if p < v0.len() {
            assert forall|k: int| p <= k < v0.len() implies version_cmp(xv, v0[k]) != Ordering::Greater by {
                if k > p {
                    lemma_version_cmp_transitive(xv, v0[p as int], v0[k]);
                }
            }
        }
    }
    out.insert(p, x);
    proof {
        let v1 = versions_of(out@);
        assert(v1 =~= v0.insert(p as int, x.version_view()));
    }
}

/// Keeps the items whose version passes `version_filter` (normalized first;
/// a trailing `*` asks for a prefix match, anything else for an exact one)
/// and, when `stable_only` is set, is stable; then sorts them by version,
/// oldest and pre-releases first, keeping the order of items that compare
/// equal.
pub fn filter_and_sort<T: Versioned>(items: Vec<T>, version_filter: Option<String>, stable_only: bool) -> (r: Vec<T>)
    ensures
        sorted_by_version(versions_of(r@)),
        r@.to_multiset() == kept(items@, option_view(version_filter), stable_only).to_multiset(),
        r@ == stable_sorted(kept(items@, option_view(version_filter), stable_only)),
{
    let ghost orig = items@;
    let ghost fv = option_view(version_filter);
    let f: Option<Vec<char>> = match version_filter {
        Some(s) => Some(chars_of(get_real_version(s).as_str())),
        None => None,
    };
    let mut rest = items;
    let mut out: Vec<T> = Vec::new();
    let ghost mut k: int = 0;
    proof {
        reveal(Seq::filter);
        assert(orig.subrange(0, 0) =~= Seq::<T>::empty());
        assert(out@ =~= Seq::<T>::empty());
    }
    while rest.len() > 0
        invariant
            0 <= k <= orig.len(),
            rest@ == orig.subrange(k, orig.len() as int),
            sorted_by_version(versions_of(out@)),
            out@.to_multiset() == kept(orig.subrange(0, k), fv, stable_only).to_multiset(),
            out@ == stable_sorted(kept(orig.subrange(0, k), fv, stable_only)),
            f matches Some(c) ==> fv is Some && c@ == normalized(fv->0),
            f is None ==> fv is None,
        decreases rest@.len(),
    {
        let x = rest.remove(0);
        let keep = (!stable_only || is_stable_version(x.version_str())) && filter_matches(&f, x.version_str());
        proof {
            reveal(Seq::filter);
            let pred = |t: T| keeps(fv, stable_only, t.version_view());
            assert(orig.subrange(0, k + 1).drop_last() =~= orig.subrange(0, k));
            assert(orig.subrange(0, k + 1).last() == x);
            assert(keep == pred(x));
            let before = kept(orig.subrange(0, k), fv, stable_only);
            let after = kept(orig.subrange(0, k + 1), fv, stable_only);
            if keep {
                assert(after == before.push(x));
                assert(after.drop_last() =~= before);
            } else {
                assert(after == before);
            }
            k = k + 1;
            assert(rest@ =~= orig.subrange(k, orig.len() as int));
        }
        if keep {
            insert_sorted(&mut out, x);
            proof {
                broadcast use vstd::seq_lib::to_multiset_build;
            }
        }
    }
    assert(orig.subrange(0, k) =~= orig);
    out
}

/// Filtering a sequence without duplicates keeps it without duplicates.
pub proof fn lemma_filter_no_duplicates<T>(s: Seq<T>, pred: spec_fn(T) -> bool)
    requires
        s.no_duplicates(),
    ensures
        s.filter(pred).no_duplicates(),
    decreases s.len(),
{
    reveal(Seq::filter);
    if s.len() > 0 {
        let d = s.drop_last();
        assert(d.no_duplicates());
        lemma_filter_no_duplicates(d, pred);
        if pred(s.last()) {
            let f = d.filter(pred);
            if f.contains(s.last()) {
                d.lemma_filter_contains_rev(pred, s.last());
                let k = choose|k: int| 0 <= k < d.len() && d[k] == s.last();
                assert(s[k] == s[s.len() - 1]);
            }
            assert forall|i: int, j: int| 0 <= i < j < f.push(s.last()).len() implies f.push(s.last())[i]
                != f.push(s.last())[j] by {
                if j == f.len() {
                    assert(f.contains(f[i]));
                }
            }
        }
    }
}

} // verus!
