//! Reading the store from what is on disk: the entries of the version and
//! alias directories and the content of the active marker.
use vstd::prelude::*;
use crate::installer::{last_segment, package_name};
use crate::store::{AliasEntry, Store};
use crate::text::{chars_of, str_eq};
use crate::version::{has_base, is_digit_char};

verus! {

/// One entry of a directory listing.
pub struct DirEntryInfo {
    /// The entry's file name.
    pub name: String,
    /// The entry is a directory (a link is not followed).
    pub is_dir: bool,
    /// The entry is a symbolic link.
    pub is_symlink: bool,
    /// Where the link points, when it is one and could be read.
    pub link_target: Option<String>,
}

/// The names of the directories among the entries, in order.
pub open spec fn dir_names(s: Seq<DirEntryInfo>) -> Seq<Seq<char>>
    decreases s.len(),
{
    if s.len() == 0 {
        Seq::empty()
    } else if s.last().is_dir {
        dir_names(s.drop_last()).push(s.last().name@)
    } else {
        dir_names(s.drop_last())
    }
}

/// The aliases among the entries: each symbolic link whose target could be
/// read, with the version that the target's last path segment names.
pub open spec fn link_aliases(s: Seq<DirEntryInfo>) -> Seq<(Seq<char>, Seq<char>)>
    decreases s.len(),
{
    if s.len() == 0 {
        Seq::empty()
    } else if s.last().is_symlink && s.last().link_target is Some {
        link_aliases(s.drop_last()).push((s.last().name@, last_segment(s.last().link_target->0@)))
    } else {
        link_aliases(s.drop_last())
    }
}

/// Names of the installed versions: the directories of the version
/// directory; other entries are ignored.
pub fn list_installed_versions(entries: &Vec<DirEntryInfo>) -> (r: Vec<String>)
    ensures
        r@.map_values(|s: String| s@) == dir_names(entries@),
{
    let mut r: Vec<String> = Vec::new();
    let mut i: usize = 0;
    assert(entries@.subrange(0, 0) =~= Seq::<DirEntryInfo>::empty());
    assert(r@.map_values(|s: String| s@) =~= dir_names(entries@.subrange(0, 0)));
    while i < entries.len()
        invariant
            i <= entries@.len(),
            r@.map_values(|s: String| s@) == dir_names(entries@.subrange(0, i as int)),
        decreases entries@.len() - i,
    {
        assert(entries@.subrange(0, i + 1).drop_last() =~= entries@.subrange(0, i as int));
        let ghost before = r@;
        if entries[i].is_dir {
            r.push(entries[i].name.clone());
            assert(r@.map_values(|s: String| s@) =~= before.map_values(|s: String| s@).push(entries@[i as int].name@));
        }
        i = i + 1;
    }
    assert(entries@.subrange(0, i as int) =~= entries@);
    r
}

/// The aliases of the alias directory: its symbolic links, each with the
/// version its target names; other entries are ignored.
pub fn list_aliases(entries: &Vec<DirEntryInfo>) -> (r: Vec<AliasEntry>)
    ensures
        r@.map_values(|a: AliasEntry| (a.name@, a.target@)) == link_aliases(entries@),
{
    let mut r: Vec<AliasEntry> = Vec::new();
    let mut i: usize = 0;
    assert(entries@.subrange(0, 0) =~= Seq::<DirEntryInfo>::empty());
    assert(r@.map_values(|a: AliasEntry| (a.name@, a.target@)) =~= link_aliases(entries@.subrange(0, 0)));
    while i < entries.len()
        invariant
            i <= entries@.len(),
            r@.map_values(|a: AliasEntry| (a.name@, a.target@)) == link_aliases(entries@.subrange(0, i as int)),
        decreases entries@.len() - i,
    {
        assert(entries@.subrange(0, i + 1).drop_last() =~= entries@.subrange(0, i as int));
        let ghost before = r@;
        if entries[i].is_symlink {
            match &entries[i].link_target {
                Some(t) => {
                    let target = package_name(t.as_str());
                    r.push(AliasEntry { name: entries[i].name.clone(), target });
                    assert(r@.map_values(|a: AliasEntry| (a.name@, a.target@)) =~= before.map_values(
                        |a: AliasEntry| (a.name@, a.target@),
                    ).push((entries@[i as int].name@, last_segment(t@))));
                },
                None => {},
            }
        }
        i = i + 1;
    }
    assert(entries@.subrange(0, i as int) =~= entries@);
    r
}

/// The active version named by the marker's content: none when there is no
/// marker or its content is not a `go`-prefixed version.
pub fn get_active_version(marker: Option<String>) -> (r: Option<String>)
    ensures
        match marker {
            Some(m) => if has_base(m@) {
                r is Some && r->0@ == m@
            } else {
                r is None
            },
            None => r is None,
        },
{
    match marker {
        None => None,
        Some(m) => {
            let cs = chars_of(m.as_str());
            if cs.len() > 2 && cs[0] == 'g' && cs[1] == 'o' && is_digit_char(cs[2]) {
                Some(m)
            } else {
                None
            }
        },
    }
}

/// Whether `version` is the active version of the store.
pub fn is_version_active(store: &Store, version: &str) -> (r: bool)
    ensures
        r == (store@.active == Some(version@)),
{
    match store.active() {
        Some(a) => str_eq(a.as_str(), version),
        None => false,
    }
}

} // verus!
