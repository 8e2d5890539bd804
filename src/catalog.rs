//! The release catalog: the entries kept from the upstream release list,
//! and the listings of installed and available versions.
use vstd::prelude::*;
use crate::listing::{
    filter_and_sort, keeps, lemma_filter_no_duplicates, stable_sorted, option_view, sorted_by_version, versions_of, FilteredRelease,
    Versioned, kept,
};
use crate::store::Store;
use crate::text::{chars_of, ends_with, ends_with_chars, str_eq};

verus! {

/// One downloadable file of an upstream release.
pub struct ReleaseFile {
    pub filename: String,
    pub os: String,
    pub arch: String,
    pub kind: String,
}

/// One upstream release with its files.
pub struct Release {
    pub version: String,
    pub stable: bool,
    pub files: Vec<ReleaseFile>,
}

/// A file that the catalog keeps: a `tar.gz` archive for linux on amd64.
pub open spec fn wanted_file(f: ReleaseFile) -> bool {
    f.os@ == "linux"@ && f.arch@ == "amd64"@ && ends_with(f.filename@, "tar.gz"@)
}

/// The download URL of an archive.
pub open spec fn download_url(filename: Seq<char>) -> Seq<char> {
    "https://go.dev/dl/"@ + filename
}

/// A catalog entry as a (version, URL) pair.
pub open spec fn entry_view(r: FilteredRelease) -> (Seq<char>, Seq<char>) {
    (r.version@, r.url@)
}

/// The catalog entries of `files`, all for version `v`.
pub open spec fn file_entries(v: Seq<char>, files: Seq<ReleaseFile>) -> Seq<(Seq<char>, Seq<char>)>
    decreases files.len(),
{
    if files.len() == 0 {
        Seq::empty()
    } else {
        let rest = file_entries(v, files.drop_last());
        if wanted_file(files.last()) {
            rest.push((v, download_url(files.last().filename@)))
        } else {
            rest
        }
    }
}

/// The catalog entries of a list of releases, in order.
pub open spec fn cache_entries(rs: Seq<Release>) -> Seq<(Seq<char>, Seq<char>)>
    decreases rs.len(),
{
    if rs.len() == 0 {
        Seq::empty()
    } else {
        cache_entries(rs.drop_last()) + file_entries(rs.last().version@, rs.last().files@)
    }
}

/// Keeps, release by release and file by file, the linux amd64 `tar.gz`
/// archives, each as its release's version and its download URL.
pub fn create_release_cache(releases: &Vec<Release>) -> (r: Vec<FilteredRelease>)
    ensures
        r@.map_values(|e: FilteredRelease| entry_view(e)) == cache_entries(releases@),
{
    let linux = chars_of("linux");
    let amd64 = chars_of("amd64");
    let tgz = chars_of("tar.gz");
    let mut out: Vec<FilteredRelease> = Vec::new();
    let mut i: usize = 0;
    assert(releases@.subrange(0, 0) =~= Seq::<Release>::empty());
    assert(out@.map_values(|e: FilteredRelease| entry_view(e)) =~= cache_entries(releases@.subrange(0, 0)));
    while i < releases.len()
        invariant
            linux@ == "linux"@,
            amd64@ == "amd64"@,
            tgz@ == "tar.gz"@,
            i <= releases@.len(),
            out@.map_values(|e: FilteredRelease| entry_view(e)) == cache_entries(releases@.subrange(0, i as int)),
        decreases releases@.len() - i,
    {
        let rel = &releases[i];
        let ghost base = out@.map_values(|e: FilteredRelease| entry_view(e));
        let mut j: usize = 0;
        assert(rel.files@.subrange(0, 0) =~= Seq::<ReleaseFile>::empty());
        assert(base + file_entries(rel.version@, rel.files@.subrange(0, 0)) =~= base);
        while j < rel.files.len()
            invariant
                linux@ == "linux"@,
                amd64@ == "amd64"@,
                tgz@ == "tar.gz"@,
                j <= rel.files@.len(),
                out@.map_values(|e: FilteredRelease| entry_view(e)) == base + file_entries(rel.version@, rel.files@.subrange(0, j as int)),
            decreases rel.files@.len() - j,
        {
            let f = &rel.files[j];
            let ghost before = out@;
            assert(rel.files@.subrange(0, j + 1).drop_last() =~= rel.files@.subrange(0, j as int));
            let name = chars_of(f.filename.as_str());
            if str_eq(f.os.as_str(), "linux") && str_eq(f.arch.as_str(), "amd64") && ends_with_chars(&name, &tgz) {
                let mut url = String::from_str("https://go.dev/dl/");
                url.append(f.filename.as_str());
                out.push(FilteredRelease { version: rel.version.clone(), url });
                assert(out@.map_values(|e: FilteredRelease| entry_view(e)) =~= before.map_values(|e: FilteredRelease| entry_view(e)).push(entry_view(out@.last())));
            }
            j = j + 1;
        }
        assert(rel.files@.subrange(0, j as int) =~= rel.files@);
        assert(releases@.subrange(0, i + 1).drop_last() =~= releases@.subrange(0, i as int));
        i = i + 1;
    }
    assert(releases@.subrange(0, i as int) =~= releases@);
    out
}

/// Filters and sorts the catalog entries: see `filter_and_sort`.
pub fn list_cached_versions(releases: Vec<FilteredRelease>, version_filter: Option<String>, stable_only: bool) -> (r: Vec<FilteredRelease>)
    ensures
        sorted_by_version(versions_of(r@)),
        r@.to_multiset() == kept(releases@, option_view(version_filter), stable_only).to_multiset(),
        r@ == stable_sorted(kept(releases@, option_view(version_filter), stable_only)),
{
    filter_and_sort(releases, version_filter, stable_only)
}

/// A version in a listing, marked when it is the active one (for the
/// installed versions) or an installed one (for the catalog).
pub struct ListedVersion {
    pub version: String,
    pub marked: bool,
}

impl Versioned for ListedVersion {
    open spec fn version_view(&self) -> Seq<char> {
        self.version@
    }

    fn version_str(&self) -> (r: &str) {
        self.version.as_str()
    }
}

/// The items of a sequence that a multiset equal to that of a filter holds
/// are exactly the items that pass the filter.
pub proof fn lemma_filtered_members<T>(items: Seq<T>, r: Seq<T>, pred: spec_fn(T) -> bool, x: T)
    requires
        r.to_multiset() == items.filter(pred).to_multiset(),
    ensures
        r.contains(x) <==> items.contains(x) && pred(x),
{
    broadcast use vstd::seq_lib::to_multiset_contains;
    let f = items.filter(pred);
    assert(r.contains(x) <==> r.to_multiset().count(x) > 0);
    assert(f.contains(x) <==> f.to_multiset().count(x) > 0);
    if f.contains(x) {
        let k = choose|k: int| 0 <= k < f.len() && f[k] == x;
        items.lemma_filter_pred(pred, k);
        items.lemma_filter_contains_rev(pred, x);
    }
    if items.contains(x) && pred(x) {
        let k = choose|k: int| 0 <= k < items.len() && items[k] == x;
        items.lemma_filter_contains(pred, k);
    }
}

/// The installed versions that pass the filter, sorted by version, each
/// marked when it is the active version.
pub fn list(store: &Store, version: Option<String>, stable: bool) -> (r: Vec<ListedVersion>)
    requires
        store.wf(),
    ensures
        sorted_by_version(versions_of(r@)),
        forall|i: int|
            0 <= i < r@.len() ==> {
                &&& store@.installed.contains(#[trigger] r@[i].version@)
                &&& keeps(option_view(version), stable, r@[i].version@)
                &&& r@[i].marked == (store@.active == Some(r@[i].version@))
            },
        forall|v: Seq<char>|
            store@.installed.contains(v) && keeps(option_view(version), stable, v) ==> exists|i: int|
                0 <= i < r@.len() && #[trigger] r@[i].version@ == v,
        forall|i: int, j: int| 0 <= i < j < r@.len() ==> r@[i].version@ != r@[j].version@,
{
    let installed = store.installed_versions();
    let mut items: Vec<ListedVersion> = Vec::new();
    let mut i: usize = 0;
    while i < installed.len()
        invariant
            i <= installed@.len(),
            items@.len() == i,
            forall|k: int|
                0 <= k < i ==> (#[trigger] items@[k]).version@ == installed@[k]@ && items@[k].marked
                    == (store@.active == Some(installed@[k]@)),
        decreases installed@.len() - i,
    {
        let marked = match store.active() {
            Some(a) => str_eq(a.as_str(), installed[i].as_str()),
            None => false,
        };
        items.push(ListedVersion { version: installed[i].clone(), marked });
        i = i + 1;
    }
    let ghost all = items@;
    let r = filter_and_sort(items, version, stable);
    proof {
        let pred = |t: ListedVersion| keeps(option_view(version), stable, t.version_view());
        assert forall|i: int| 0 <= i < r@.len() implies {
            &&& store@.installed.contains(#[trigger] r@[i].version@)
            &&& keeps(option_view(version), stable, r@[i].version@)
            &&& r@[i].marked == (store@.active == Some(r@[i].version@))
        } by {
            lemma_filtered_members(all, r@, pred, r@[i]);
            let k = choose|k: int| 0 <= k < all.len() && all[k] == r@[i];
            assert(installed@[k]@ == r@[i].version@);
        }
        assert forall|v: Seq<char>| store@.installed.contains(v) && keeps(option_view(version), stable, v) implies exists|i: int|
            0 <= i < r@.len() && #[trigger] r@[i].version@ == v by {
            let k = choose|k: int| 0 <= k < installed@.len() && installed@[k]@ == v;
            assert(all[k].version@ == v);
            lemma_filtered_members(all, r@, pred, all[k]);
            let i = choose|i: int| 0 <= i < r@.len() && r@[i] == all[k];
            assert(r@[i].version@ == v);
        }
        assert(all.no_duplicates()) by {
            assert forall|a: int, b: int| 0 <= a < all.len() && 0 <= b < all.len() && a != b implies all[a] != all[b] by {
                if a < b {
                    assert(installed@[a]@ != installed@[b]@);
                } else {
                    assert(installed@[b]@ != installed@[a]@);
                }
            }
        }
        lemma_filter_no_duplicates(all, pred);
        let f = all.filter(pred);
        f.lemma_multiset_has_no_duplicates();
        r@.lemma_multiset_has_no_duplicates_conv();
        assert forall|i: int, j: int| 0 <= i < j < r@.len() implies r@[i].version@ != r@[j].version@ by {
            lemma_filtered_members(all, r@, pred, r@[i]);
            lemma_filtered_members(all, r@, pred, r@[j]);
            let a = choose|a: int| 0 <= a < all.len() && all[a] == r@[i];
            let b = choose|b: int| 0 <= b < all.len() && all[b] == r@[j];
            assert(r@[i] != r@[j]);
            if a < b {
                assert(installed@[a]@ != installed@[b]@);
            } else if b < a {
                assert(installed@[b]@ != installed@[a]@);
            }
        }
    }
    r
}

/// The catalog entries that pass the filter, sorted by version, each
/// marked when that version is installed.
pub fn list_remote(store: &Store, releases: Vec<FilteredRelease>, version: Option<String>, stable: bool) -> (r: Vec<ListedVersion>)
    requires
        store.wf(),
    ensures
        sorted_by_version(versions_of(r@)),
        r@.len() == kept(releases@, option_view(version), stable).len(),
        versions_of(r@) == versions_of(stable_sorted(kept(releases@, option_view(version), stable))),
        forall|i: int|
            0 <= i < r@.len() ==> {
                &&& keeps(option_view(version), stable, #[trigger] r@[i].version@)
                &&& (exists|k: int| 0 <= k < releases@.len() && releases@[k].version@ == r@[i].version@)
                &&& r@[i].marked == store@.installed.contains(r@[i].version@)
            },
        forall|k: int|
            0 <= k < releases@.len() && keeps(option_view(version), stable, #[trigger] releases@[k].version@) ==> exists|i: int|
                0 <= i < r@.len() && r@[i].version@ == releases@[k].version@,
{
    let ghost rel0 = releases@;
    let sorted = list_cached_versions(releases, version, stable);
    let ghost pred = |t: FilteredRelease| keeps(option_view(version), stable, t.version_view());
    let mut r: Vec<ListedVersion> = Vec::new();
    let mut i: usize = 0;
    while i < sorted.len()
        invariant
            store.wf(),
            i <= sorted@.len(),
            r@.len() == i,
            forall|k: int|
                0 <= k < i ==> (#[trigger] r@[k]).version@ == sorted@[k].version@ && r@[k].marked
                    == store@.installed.contains(sorted@[k].version@),
        decreases sorted@.len() - i,
    {
        let marked = store.is_installed(sorted[i].version.as_str());
        r.push(ListedVersion { version: sorted[i].version.clone(), marked });
        i = i + 1;
    }
    proof {
        assert(versions_of(r@) =~= versions_of(sorted@));
        broadcast use vstd::seq_lib::to_multiset_len;
        assert(sorted@.len() == sorted@.to_multiset().len());
        assert forall|i: int| 0 <= i < r@.len() implies {
            &&& keeps(option_view(version), stable, #[trigger] r@[i].version@)
            &&& (exists|k: int| 0 <= k < rel0.len() && rel0[k].version@ == r@[i].version@)
            &&& r@[i].marked == store@.installed.contains(r@[i].version@)
        } by {
            lemma_filtered_members(rel0, sorted@, pred, sorted@[i]);
        }
        assert forall|k: int| 0 <= k < rel0.len() && keeps(option_view(version), stable, #[trigger] rel0[k].version@) implies exists|i: int|
            0 <= i < r@.len() && r@[i].version@ == rel0[k].version@ by {
            lemma_filtered_members(rel0, sorted@, pred, rel0[k]);
            let i = choose|i: int| 0 <= i < sorted@.len() && sorted@[i] == rel0[k];
            assert(r@[i].version@ == rel0[k].version@);
        }
    }
    r
}

} // verus!
