//! Installing a version: the catalog lookup and the plan that app code
//! carries out (download, unpack into a staging directory, rename into
//! place), then the store update on the outcome of the rename.
use vstd::prelude::*;
use crate::actions::GvmError;
use crate::environment::goroot;
use crate::listing::FilteredRelease;
use crate::paths::{archive_dir, get_archive_file_path, get_version_file_path, join, join_path};
use crate::store::{Store, StoreView};
use crate::text::{chars_of, str_eq};
use vstd::string::StrSliceExecFns;
use crate::version::{get_real_version, normalized};

verus! {

/// What follows the last `/` of a URL: the name of the archive.
pub open spec fn last_segment(u: Seq<char>) -> Seq<char>
    decreases u.len(),
{
    if u.len() == 0 {
        u
    } else if u.last() == '/' {
        Seq::empty()
    } else {
        last_segment(u.drop_last()).push(u.last())
    }
}

/// The releases of the catalog for version `v`.
pub open spec fn catalog_matches(c: Seq<FilteredRelease>, v: Seq<char>) -> Seq<FilteredRelease> {
    c.filter(|r: FilteredRelease| r.version@ == v)
}

/// Whether installing the raw version `version` may start: refused when
/// the catalog does not hold it exactly once, else when it is installed.
pub open spec fn install_check(s: StoreView, c: Seq<FilteredRelease>, version: Seq<char>) -> Result<(), GvmError> {
    let v = normalized(version);
    if catalog_matches(c, v).len() != 1 {
        Err(GvmError::NotFound)
    } else if s.installed.contains(v) {
        Err(GvmError::AlreadyInstalled)
    } else {
        Ok(())
    }
}

/// The staging directory of an install of `v`: `<home>/.gvm/archive/staging-<v>`.
pub open spec fn staging_dir(home: Seq<char>, v: Seq<char>) -> Seq<char> {
    join(archive_dir(home), "staging-"@ + v)
}

/// Where an install of a version is carried out.
pub struct InstallPlan {
    /// The canonical version being installed.
    pub version: String,
    /// The URL of its archive.
    pub url: String,
    /// Where the downloaded archive is written.
    pub archive_file: String,
    /// Where the archive is unpacked.
    pub staging_dir: String,
    /// The top-level directory that the archive unpacks to.
    pub unpacked_dir: String,
    /// The version's directory, which the unpacked directory is renamed to.
    pub version_dir: String,
}

/// The plan that `install` gives for release `r` of canonical version `v`.
pub open spec fn plan_matches(p: InstallPlan, home: Seq<char>, v: Seq<char>, r: FilteredRelease) -> bool {
    &&& p.version@ == v
    &&& p.url@ == r.url@
    &&& p.archive_file@ == join(archive_dir(home), last_segment(r.url@))
    &&& p.staging_dir@ == staging_dir(home, v)
    &&& p.unpacked_dir@ == join(staging_dir(home, v), "go"@)
    &&& p.version_dir@ == goroot(home, v)
}

/// How the rename of the unpacked directory into place went.
#[derive(Debug, Clone, Copy, PartialEq, Eq, Structural)]
pub enum RenameOutcome {
    /// The version directory now exists.
    Renamed,
    /// The version directory existed already.
    TargetExists,
    /// Unpacking or renaming failed otherwise.
    Failed,
}

/// The result of recording an install whose rename went as `o`.
pub open spec fn commit_outcome(o: RenameOutcome) -> Result<(), GvmError> {
    match o {
        RenameOutcome::Renamed => Ok(()),
        RenameOutcome::TargetExists => Err(GvmError::AlreadyInstalled),
        RenameOutcome::Failed => Err(GvmError::IoFailure),
    }
}

/// The store after recording an install of the raw version `version`.
pub open spec fn commit_state(s: StoreView, version: Seq<char>, o: RenameOutcome) -> StoreView {
    if o == RenameOutcome::Renamed {
        StoreView { installed: s.installed.insert(normalized(version)), ..s }
    } else {
        s
    }
}

/// The name of the archive in a URL: what follows its last `/`.
pub fn package_name(url: &str) -> (r: String)
    ensures
        r@ == last_segment(url@),
{
    let cs = chars_of(url);
    let mut start: usize = 0;
    let mut i: usize = 0;
    assert(url@.subrange(0, 0) =~= Seq::<char>::empty());
    while i < cs.len()
        invariant
            cs@ == url@,
            start <= i <= cs@.len(),
            last_segment(url@.subrange(0, i as int)) == url@.subrange(start as int, i as int),
        decreases cs@.len() - i,
    {
        assert(url@.subrange(0, i + 1).drop_last() =~= url@.subrange(0, i as int));
        if cs[i] == '/' {
            start = i + 1;
            assert(url@.subrange(start as int, i + 1) =~= Seq::<char>::empty());
        } else {
            assert(url@.subrange(start as int, i + 1) =~= url@.subrange(start as int, i as int).push(cs@[i as int]));
        }
        i = i + 1;
    }
    assert(url@.subrange(0, i as int) =~= url@);
    String::from_str(url.substring_char(start, cs.len()))
}

/// Checks that the raw version `version` can be installed and says where:
/// refused with `NotFound` when the catalog does not list it exactly once,
/// then with `AlreadyInstalled` when it is installed.
pub fn install(store: &Store, catalog: &Vec<FilteredRelease>, version: String) -> (r: Result<InstallPlan, GvmError>)
    requires
        store.wf(),
    ensures
        match r {
            Ok(p) => install_check(store@, catalog@, version@) is Ok && plan_matches(
                p,
                store@.home,
                normalized(version@),
                catalog_matches(catalog@, normalized(version@))[0],
            ),
            Err(e) => install_check(store@, catalog@, version@) == Err::<(), GvmError>(e),
        },
{
    let v = get_real_version(version);
    let ghost pred = |r: FilteredRelease| r.version@ == v@;
    let mut found: Option<usize> = None;
    let mut count: usize = 0;
    let mut i: usize = 0;
    proof {
        reveal(Seq::filter);
        assert(catalog@.subrange(0, 0) =~= Seq::<FilteredRelease>::empty());
    }
    while i < catalog.len()
        invariant
            pred == (|r: FilteredRelease| r.version@ == v@),
            i <= catalog@.len(),
            count == catalog@.subrange(0, i as int).filter(pred).len(),
            count <= i,
            count == 0 <==> found is None,
            found matches Some(k) ==> k < i && catalog@.subrange(0, i as int).filter(pred)[0] == catalog@[k as int],
        decreases catalog@.len() - i,
    {
        proof {
            reveal(Seq::filter);
            let next = catalog@.subrange(0, i + 1);
            assert(next.drop_last() =~= catalog@.subrange(0, i as int));
            assert(next.last() == catalog@[i as int]);
            let f0 = catalog@.subrange(0, i as int).filter(pred);
            if pred(catalog@[i as int]) && f0.len() > 0 {
                assert(f0.push(catalog@[i as int])[0] == f0[0]);
            }
        }
        if str_eq(catalog[i].version.as_str(), v.as_str()) {
            if count == 0 {
                found = Some(i);
            }
            count = count + 1;
        }
        i = i + 1;
    }
    assert(catalog@.subrange(0, i as int) =~= catalog@);
    if count != 1 {
        return Err(GvmError::NotFound);
    }
    if store.is_installed(v.as_str()) {
        return Err(GvmError::AlreadyInstalled);
    }
    let k = found.unwrap();
    let url = catalog[k].url.clone();
    let archive = get_archive_file_path(store.home());
    let archive_file = join_path(archive.as_str(), package_name(url.as_str()).as_str());
    let mut staging_name = String::from_str("staging-");
    staging_name.append(v.as_str());
    let staging = join_path(archive.as_str(), staging_name.as_str());
    let unpacked = join_path(staging.as_str(), "go");
    let target = join_path(get_version_file_path(store.home()).as_str(), v.as_str());
    Ok(InstallPlan {
        version: v,
        url,
        archive_file,
        staging_dir: staging,
        unpacked_dir: unpacked,
        version_dir: target,
    })
}

impl Store {
    /// Records the install of the raw version `version` after the rename of
    /// its unpacked directory went as `outcome`: only a completed rename
    /// adds it; a rename onto an existing directory is `AlreadyInstalled`.
    pub fn commit_install(&mut self, version: String, outcome: RenameOutcome) -> (r: Result<(), GvmError>)
        requires
            old(self).wf(),
        ensures
            final(self).wf(),
            r == commit_outcome(outcome),
            final(self)@ == commit_state(old(self)@, version@, outcome),
    {
        match outcome {
            RenameOutcome::Renamed => {
                let v = get_real_version(version);
                if !self.is_installed(v.as_str()) {
                    self.add_installed(v);
                } else {
                    assert(self@.installed.insert(v@) =~= self@.installed);
                }
                Ok(())
            },
            RenameOutcome::TargetExists => Err(GvmError::AlreadyInstalled),
            RenameOutcome::Failed => Err(GvmError::IoFailure),
        }
    }
}

/// Once an install of a version that the catalog lists once has completed,
/// installing it again is refused with `AlreadyInstalled`, and the version
/// is in the store once: a rename that finds its directory in place, or even
/// a second completed rename, leaves the store as it is.
pub proof fn lemma_install_twice_refused(s: StoreView, catalog: Seq<FilteredRelease>, version: Seq<char>)
    requires
        catalog_matches(catalog, normalized(version)).len() == 1,
    ensures
        ({
            let v = normalized(version);
            let s1 = commit_state(s, version, RenameOutcome::Renamed);
            &&& s1.installed == s.installed.insert(v)
            &&& install_check(s1, catalog, version) == Err::<(), GvmError>(GvmError::AlreadyInstalled)
            &&& commit_outcome(RenameOutcome::TargetExists) == Err::<(), GvmError>(GvmError::AlreadyInstalled)
            &&& commit_state(s1, version, RenameOutcome::TargetExists) == s1
            &&& commit_state(s1, version, RenameOutcome::Renamed) == s1
        }),
{
    let v = normalized(version);
    let s1 = commit_state(s, version, RenameOutcome::Renamed);
    assert(s1.installed.insert(v) =~= s1.installed);
}

} // verus!
