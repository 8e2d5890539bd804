//! The store: which versions are installed, which aliases exist and which
//! version is active. Each operation checks its preconditions, updates the
//! model and returns the filesystem steps that make the change on disk.
use vstd::prelude::*;
use crate::actions::{Action, ActionView, GvmError, actions_view};
use crate::environment::{env_content, env_file, environment_file_content, gocache, gopath, goroot};
use crate::paths::{
    alias_dir, environment_dir, get_alias_file_path, get_cache_dir, get_environment_file_path,
    get_package_file_path, get_version_file_path, join, join_path, version_dir,
};
use crate::text::str_eq;
use crate::version::{get_real_version, normalized};

verus! {

/// An alias: a name and the version it points at.
pub struct AliasEntry {
    pub name: String,
    pub target: String,
}

/// The map from alias names to versions that a list of entries describes;
/// a later entry for a name replaces an earlier one.
pub open spec fn alias_map(s: Seq<AliasEntry>) -> Map<Seq<char>, Seq<char>>
    decreases s.len(),
{
    if s.len() == 0 {
        Map::empty()
    } else {
        alias_map(s.drop_last()).insert(s.last().name@, s.last().target@)
    }
}

/// No two entries share a name.
pub open spec fn names_distinct(s: Seq<AliasEntry>) -> bool {
    forall|i: int, j: int| 0 <= i < j < s.len() ==> s[i].name@ != s[j].name@
}

/// The set of versions in a list.
pub open spec fn version_set(s: Seq<String>) -> Set<Seq<char>> {
    Set::new(|v: Seq<char>| exists|i: int| 0 <= i < s.len() && s[i]@ == v)
}

/// No version appears twice in a list.
pub open spec fn views_distinct(s: Seq<String>) -> bool {
    forall|i: int, j: int| 0 <= i < j < s.len() ==> s[i]@ != s[j]@
}

/// An optional string as an optional character sequence.
pub open spec fn opt_view(o: Option<String>) -> Option<Seq<char>> {
    match o {
        Some(s) => Some(s@),
        None => None,
    }
}

proof fn lemma_alias_map_lookup(s: Seq<AliasEntry>, n: Seq<char>)
    ensures
        alias_map(s).contains_key(n) <==> exists|i: int| 0 <= i < s.len() && s[i].name@ == n,
        names_distinct(s) ==> forall|i: int|
            0 <= i < s.len() && s[i].name@ == n ==> alias_map(s)[n] == #[trigger] s[i].target@,
    decreases s.len(),
{
    if s.len() > 0 {
        let d = s.drop_last();
        lemma_alias_map_lookup(d, n);
        if alias_map(s).contains_key(n) && s.last().name@ != n {
            let i = choose|i: int| 0 <= i < d.len() && d[i].name@ == n;
            assert(s[i].name@ == n);
        }
        if exists|i: int| 0 <= i < s.len() && s[i].name@ == n {
            let i = choose|i: int| 0 <= i < s.len() && s[i].name@ == n;
            if i < s.len() - 1 {
                assert(d[i].name@ == n);
            }
        }
        if names_distinct(s) {
            assert forall|i: int| 0 <= i < s.len() && s[i].name@ == n implies alias_map(s)[n]
                == #[trigger] s[i].target@ by {
                if i < s.len() - 1 {
                    assert(d[i] == s[i]);
                    assert(s[i].name@ != s.last().name@);
                }
            }
        }
    }
}

proof fn lemma_alias_map_remove(s: Seq<AliasEntry>, i: int)
    requires
        names_distinct(s),
        0 <= i < s.len(),
    ensures
        alias_map(s.remove(i)) == alias_map(s).remove(s[i].name@),
        names_distinct(s.remove(i)),
    decreases s.len(),
{
    let d = s.drop_last();
    let last = s.last();
    if i == s.len() - 1 {
        assert(s.remove(i) =~= d);
        lemma_alias_map_lookup(d, last.name@);
        if alias_map(d).contains_key(last.name@) {
            let k = choose|k: int| 0 <= k < d.len() && d[k].name@ == last.name@;
            assert(s[k].name@ == s[s.len() - 1].name@);
        }
        assert(alias_map(s.remove(i)) =~= alias_map(s).remove(s[i].name@));
    } else {
        lemma_alias_map_remove(d, i);
        assert(s.remove(i) =~= d.remove(i).push(last));
        assert(s.remove(i).drop_last() =~= d.remove(i));
        assert(s[i].name@ != last.name@);
        assert(alias_map(s.remove(i)) =~= alias_map(s).remove(s[i].name@));
    }
}

/// A name that the alias commands may not create: `default` belongs to the
/// activation, `list` and `ls` are command words.
pub open spec fn is_reserved(n: Seq<char>) -> bool {
    n == "default"@ || n == "list"@ || n == "ls"@
}

/// What the store holds, as mathematical values.
pub struct StoreView {
    pub home: Seq<char>,
    pub installed: Set<Seq<char>>,
    pub aliases: Map<Seq<char>, Seq<char>>,
    pub active: Option<Seq<char>>,
}

/// The store after version `v` became active: the marker and the `default`
/// alias both name it.
pub open spec fn activated(s: StoreView, v: Seq<char>) -> StoreView {
    StoreView { active: Some(v), aliases: s.aliases.insert("default"@, v), ..s }
}

/// `<home>/.gvm/version/active`, the marker that names the active version.
pub open spec fn active_file(home: Seq<char>) -> Seq<char> {
    join(version_dir(home), "active"@)
}

/// The link of alias `n`: `<home>/.gvm/alias/<n>`.
pub open spec fn alias_link(home: Seq<char>, n: Seq<char>) -> Seq<char> {
    join(alias_dir(home), n)
}

/// The steps that (re)write the environment descriptor for `v`.
pub open spec fn environment_actions(home: Seq<char>, v: Seq<char>) -> Seq<ActionView> {
    seq![
        ActionView::CreateDirAll { path: environment_dir(home) },
        ActionView::WriteFile { path: env_file(home), contents: env_content(home, v) },
    ]
}

/// The steps of an activation of `v`: the marker, the `default` link, the
/// version's build cache and package directories, the environment descriptor.
pub open spec fn activation_actions(home: Seq<char>, v: Seq<char>) -> Seq<ActionView> {
    seq![
        ActionView::WriteFile { path: active_file(home), contents: v },
        ActionView::ReplaceSymlink { link: alias_link(home, "default"@), target: goroot(home, v) },
        ActionView::CreateDirAll { path: gocache(home, v) },
        ActionView::CreateDirAll { path: join(gopath(home, v), "bin"@) },
    ] + environment_actions(home, v)
}

/// The outcome of `activate` on store `s` for the raw version `version`.
pub open spec fn activate_outcome(s: StoreView, version: Seq<char>) -> Result<Seq<ActionView>, GvmError> {
    let v = normalized(version);
    if !s.installed.contains(v) {
        Err(GvmError::NotInstalled)
    } else if s.active == Some(v) {
        Ok(Seq::empty())
    } else {
        Ok(activation_actions(s.home, v))
    }
}

/// The store after `activate` for the raw version `version`.
pub open spec fn activate_state(s: StoreView, version: Seq<char>) -> StoreView {
    let v = normalized(version);
    if s.installed.contains(v) && s.active != Some(v) {
        activated(s, v)
    } else {
        s
    }
}

/// The outcome of creating alias `n` for the raw version `target`.
pub open spec fn create_alias_outcome(s: StoreView, n: Seq<char>, target: Seq<char>) -> Result<Seq<ActionView>, GvmError> {
    let v = normalized(target);
    if is_reserved(n) {
        Err(GvmError::ReservedName)
    } else if s.aliases.contains_key(n) {
        Err(GvmError::AliasExists)
    } else if !s.installed.contains(v) {
        Err(GvmError::NotInstalled)
    } else {
        Ok(seq![ActionView::CreateSymlink { link: alias_link(s.home, n), target: goroot(s.home, v) }])
    }
}

/// The store after creating alias `n` for the raw version `target`.
pub open spec fn create_alias_state(s: StoreView, n: Seq<char>, target: Seq<char>) -> StoreView {
    if create_alias_outcome(s, n, target) is Ok {
        StoreView { aliases: s.aliases.insert(n, normalized(target)), ..s }
    } else {
        s
    }
}

/// The outcome of removing alias `n`: `default` is refused, a missing alias
/// is nothing to do.
pub open spec fn remove_alias_outcome(s: StoreView, n: Seq<char>) -> Result<Seq<ActionView>, GvmError> {
    if n == "default"@ {
        Err(GvmError::ReservedName)
    } else if !s.aliases.contains_key(n) {
        Ok(Seq::empty())
    } else {
        Ok(seq![ActionView::RemoveSymlink { link: alias_link(s.home, n) }])
    }
}

/// The store after removing alias `n`.
pub open spec fn remove_alias_state(s: StoreView, n: Seq<char>) -> StoreView {
    if n == "default"@ {
        s
    } else {
        StoreView { aliases: s.aliases.remove(n), ..s }
    }
}

/// The outcome of removing the raw version `version`.
pub open spec fn remove_outcome(s: StoreView, version: Seq<char>) -> Result<Seq<ActionView>, GvmError> {
    let v = normalized(version);
    if !s.installed.contains(v) {
        Err(GvmError::NotInstalled)
    } else if s.active == Some(v) {
        Err(GvmError::VersionActive)
    } else {
        Ok(seq![ActionView::RemoveDirAll { path: goroot(s.home, v) }])
    }
}

/// The store after removing the raw version `version`.
pub open spec fn remove_state(s: StoreView, version: Seq<char>) -> StoreView {
    if remove_outcome(s, version) is Ok {
        StoreView { installed: s.installed.remove(normalized(version)), ..s }
    } else {
        s
    }
}

/// The store of one user: installed versions, aliases and the active version.
pub struct Store {
    home: String,
    installed: Vec<String>,
    aliases: Vec<AliasEntry>,
    active: Option<String>,
}

impl View for Store {
    type V = StoreView;

    closed spec fn view(&self) -> StoreView {
        StoreView {
            home: self.home@,
            installed: version_set(self.installed@),
            aliases: alias_map(self.aliases@),
            active: opt_view(self.active),
        }
    }
}

impl Store {
    /// One directory per version, one link per alias name.
    pub closed spec fn wf(&self) -> bool {
        views_distinct(self.installed@) && names_distinct(self.aliases@)
    }

    /// Position of `v` among the installed versions.
    fn find_installed(&self, v: &str) -> (r: Option<usize>)
        requires
            self.wf(),
        ensures
            r matches Some(i) ==> i < self.installed@.len() && self.installed@[i as int]@ == v@,
            r is None ==> !self@.installed.contains(v@),
    {
        let mut i: usize = 0;
        while i < self.installed.len()
            invariant
                i <= self.installed@.len(),
                forall|k: int| 0 <= k < i ==> self.installed@[k]@ != v@,
            decreases self.installed@.len() - i,
        {
            if str_eq(self.installed[i].as_str(), v) {
                return Some(i);
            }
            i = i + 1;
        }
        None
    }

    /// Position of alias `n`.
    fn find_alias(&self, n: &str) -> (r: Option<usize>)
        requires
            self.wf(),
        ensures
            r matches Some(i) ==> i < self.aliases@.len() && self.aliases@[i as int].name@ == n@,
            r is None ==> !self@.aliases.contains_key(n@),
    {
        proof {
            lemma_alias_map_lookup(self.aliases@, n@);
        }
        let mut i: usize = 0;
        while i < self.aliases.len()
            invariant
                i <= self.aliases@.len(),
                forall|k: int| 0 <= k < i ==> self.aliases@[k].name@ != n@,
            decreases self.aliases@.len() - i,
        {
            if str_eq(self.aliases[i].name.as_str(), n) {
                return Some(i);
            }
            i = i + 1;
        }
        None
    }

    /// The user's home directory, under which the store lives.
    pub fn home(&self) -> (r: &str)
        ensures
            r@ == self@.home,
    {
        self.home.as_str()
    }

    /// Whether version `v` is installed.
    pub fn is_installed(&self, v: &str) -> (r: bool)
        requires
            self.wf(),
        ensures
            r == self@.installed.contains(v@),
    {
        self.find_installed(v).is_some()
    }

    /// The installed versions, each once, in no particular order.
    pub fn installed_versions(&self) -> (r: &Vec<String>)
        requires
            self.wf(),
        ensures
            version_set(r@) == self@.installed,
            views_distinct(r@),
    {
        &self.installed
    }

    /// The aliases, each name once.
    pub fn aliases(&self) -> (r: &Vec<AliasEntry>)
        requires
            self.wf(),
        ensures
            alias_map(r@) == self@.aliases,
            names_distinct(r@),
    {
        &self.aliases
    }

    /// The active version, if any.
    pub fn active(&self) -> (r: &Option<String>)
        ensures
            opt_view(*r) == self@.active,
    {
        &self.active
    }

    /// The version that alias `name` points at, or `NotFound`.
    pub fn resolve_alias(&self, name: &str) -> (r: Result<String, GvmError>)
        requires
            self.wf(),
        ensures
            self@.aliases.contains_key(name@) ==> r is Ok && r->Ok_0@ == self@.aliases[name@],
            !self@.aliases.contains_key(name@) ==> r == Err::<String, GvmError>(GvmError::NotFound),
    {
        proof {
            lemma_alias_map_lookup(self.aliases@, name@);
        }
        match self.find_alias(name) {
            Some(i) => Ok(self.aliases[i].target.clone()),
            None => Err(GvmError::NotFound),
        }
    }

    pub(crate) fn add_installed(&mut self, v: String)
        requires
            old(self).wf(),
            !old(self)@.installed.contains(v@),
        ensures
            final(self).wf(),
            final(self)@ == (StoreView { installed: old(self)@.installed.insert(v@), ..old(self)@ }),
    {
        let ghost s0 = self.installed@;
        proof {
            assert forall|i: int| 0 <= i < s0.len() implies s0[i]@ != v@ by {
                if s0[i]@ == v@ {
                    assert(version_set(s0).contains(v@));
                }
            }
        }
        self.installed.push(v);
        proof {
            let s1 = self.installed@;
            assert forall|x: Seq<char>| version_set(s1).contains(x) <==> version_set(s0).insert(v@).contains(x) by {
                if version_set(s0).contains(x) {
                    let i = choose|i: int| 0 <= i < s0.len() && s0[i]@ == x;
                    assert(s1[i]@ == x);
                }
                if x == v@ {
                    assert(s1[s0.len() as int]@ == x);
                }
                if version_set(s1).contains(x) && x != v@ {
                    let i = choose|i: int| 0 <= i < s1.len() && s1[i]@ == x;
                    assert(s0[i]@ == x);
                }
            }
            assert(version_set(s1) =~= version_set(s0).insert(v@));
        }
    }

    fn remove_installed_at(&mut self, i: usize)
        requires
            old(self).wf(),
            i < old(self).installed@.len(),
        ensures
            final(self).wf(),
            final(self)@ == (StoreView {
                installed: old(self)@.installed.remove(old(self).installed@[i as int]@),
                ..old(self)@
            }),
    {
        let ghost s0 = self.installed@;
        let ghost v = s0[i as int]@;
        self.installed.remove(i);
        proof {
            let s1 = self.installed@;
            assert(s1 =~= s0.remove(i as int));
            assert forall|x: Seq<char>| version_set(s1).contains(x) <==> version_set(s0).remove(v).contains(x) by {
                if version_set(s1).contains(x) {
                    let k = choose|k: int| 0 <= k < s1.len() && s1[k]@ == x;
                    if k < i {
                        assert(s0[k]@ == x);
                    } else {
                        assert(s0[k + 1]@ == x);
                    }
                }
                if version_set(s0).remove(v).contains(x) {
                    let k = choose|k: int| 0 <= k < s0.len() && s0[k]@ == x;
                    assert(k != i);
                    if k < i {
                        assert(s1[k]@ == x);
                    } else {
                        assert(s1[k - 1]@ == x);
                    }
                }
            }
            assert(version_set(s1) =~= version_set(s0).remove(v));
        }
    }

    fn drop_alias_at(&mut self, i: usize)
        requires
            old(self).wf(),
            i < old(self).aliases@.len(),
        ensures
            final(self).wf(),
            final(self)@ == (StoreView {
                aliases: old(self)@.aliases.remove(old(self).aliases@[i as int].name@),
                ..old(self)@
            }),
    {
        proof {
            lemma_alias_map_remove(self.aliases@, i as int);
        }
        self.aliases.remove(i);
    }

    fn put_alias(&mut self, name: String, target: String)
        requires
            old(self).wf(),
        ensures
            final(self).wf(),
            final(self)@ == (StoreView { aliases: old(self)@.aliases.insert(name@, target@), ..old(self)@ }),
    {
        match self.find_alias(name.as_str()) {
            Some(i) => {
                self.drop_alias_at(i);
            },
            None => {},
        }
        proof {
            lemma_alias_map_lookup(self.aliases@, name@);
        }
        let ghost s0 = self.aliases@;
        self.aliases.push(AliasEntry { name, target });
        proof {
            assert(self.aliases@.drop_last() =~= s0);
        }
        assert(self@.aliases =~= old(self)@.aliases.insert(name@, target@));
    }

    /// A store for the given home directory built from what is on disk: the
    /// version directories, the alias links (a later entry for a name wins)
    /// and the content of the active marker.
    pub fn new(home: String, versions: &Vec<String>, aliases: &Vec<AliasEntry>, active: Option<String>) -> (r: Store)
        ensures
            r.wf(),
            r@ == (StoreView {
                home: home@,
                installed: version_set(versions@),
                aliases: alias_map(aliases@),
                active: opt_view(active),
            }),
    {
        let mut st = Store { home, installed: Vec::new(), aliases: Vec::new(), active };
        assert(version_set(st.installed@) =~= Set::<Seq<char>>::empty());
        let mut i: usize = 0;
        while i < versions.len()
            invariant
                st.wf(),
                i <= versions@.len(),
                st@.home == home@,
                st@.active == opt_view(active),
                st@.aliases == Map::<Seq<char>, Seq<char>>::empty(),
                st@.installed == version_set(versions@.subrange(0, i as int)),
            decreases versions@.len() - i,
        {
            let ghost before = versions@.subrange(0, i as int);
            let ghost after = versions@.subrange(0, i + 1);
            assert(version_set(after) =~= version_set(before).insert(versions@[i as int]@)) by {
                assert forall|x: Seq<char>| version_set(after).contains(x) <==> version_set(before).insert(versions@[i as int]@).contains(x) by {
                    if version_set(after).contains(x) {
                        let k = choose|k: int| 0 <= k < after.len() && after[k]@ == x;
                        if k < i {
                            assert(before[k]@ == x);
                        }
                    }
                    if version_set(before).contains(x) {
                        let k = choose|k: int| 0 <= k < before.len() && before[k]@ == x;
                        assert(after[k]@ == x);
                    }
                    if x == versions@[i as int]@ {
                        assert(after[i as int]@ == x);
                    }
                }
            }
            let v = versions[i].clone();
            if !st.is_installed(v.as_str()) {
                st.add_installed(v);
            } else {
                assert(version_set(before).insert(versions@[i as int]@) =~= version_set(before));
            }
            i = i + 1;
        }
        assert(versions@.subrange(0, i as int) =~= versions@);
        let mut j: usize = 0;
        assert(aliases@.subrange(0, 0) =~= Seq::<AliasEntry>::empty());
        while j < aliases.len()
            invariant
                st.wf(),
                j <= aliases@.len(),
                st@.home == home@,
                st@.active == opt_view(active),
                st@.installed == version_set(versions@),
                st@.aliases == alias_map(aliases@.subrange(0, j as int)),
            decreases aliases@.len() - j,
        {
            assert(aliases@.subrange(0, j + 1).drop_last() =~= aliases@.subrange(0, j as int));
            let name = aliases[j].name.clone();
            let target = aliases[j].target.clone();
            st.put_alias(name, target);
            j = j + 1;
        }
        assert(aliases@.subrange(0, j as int) =~= aliases@);
        st
    }

    /// Makes the raw version `version` the active one. Refused when it is
    /// not installed; nothing to do when it is active already; otherwise the
    /// marker and the `default` alias are set to it, and the steps of the
    /// activation are returned, the marker write first.
    pub fn activate(&mut self, version: String) -> (r: Result<Vec<Action>, GvmError>)
        requires
            old(self).wf(),
        ensures
            final(self).wf(),
            final(self)@ == activate_state(old(self)@, version@),
            match r {
                Ok(a) => activate_outcome(old(self)@, version@) == Ok::<Seq<ActionView>, GvmError>(actions_view(a@)),
                Err(e) => activate_outcome(old(self)@, version@) == Err::<Seq<ActionView>, GvmError>(e),
            },
    {
        let v = get_real_version(version);
        if !self.is_installed(v.as_str()) {
            return Err(GvmError::NotInstalled);
        }
        let same = match &self.active {
            Some(a) => str_eq(a.as_str(), v.as_str()),
            None => false,
        };
        if same {
            let r: Vec<Action> = Vec::new();
            assert(actions_view(r@) =~= Seq::<ActionView>::empty());
            return Ok(r);
        }
        let steps = activation_steps(self.home.as_str(), v.as_str());
        self.active = Some(v.clone());
        let default = String::from_str("default");
        self.put_alias(default, v);
        Ok(steps)
    }

    /// Creates alias `name` for the raw version `target`. Refused for a
    /// reserved name, a name in use, or a version that is not installed.
    pub fn create_alias(&mut self, name: String, target: String) -> (r: Result<Vec<Action>, GvmError>)
        requires
            old(self).wf(),
        ensures
            final(self).wf(),
            final(self)@ == create_alias_state(old(self)@, name@, target@),
            match r {
                Ok(a) => create_alias_outcome(old(self)@, name@, target@) == Ok::<Seq<ActionView>, GvmError>(actions_view(a@)),
                Err(e) => create_alias_outcome(old(self)@, name@, target@) == Err::<Seq<ActionView>, GvmError>(e),
            },
    {
        if is_reserved_name(name.as_str()) {
            return Err(GvmError::ReservedName);
        }
        if self.find_alias(name.as_str()).is_some() {
            proof {
                lemma_alias_map_lookup(self.aliases@, name@);
            }
            return Err(GvmError::AliasExists);
        }
        let v = get_real_version(target);
        if !self.is_installed(v.as_str()) {
            return Err(GvmError::NotInstalled);
        }
        let link = join_path(get_alias_file_path(self.home.as_str()).as_str(), name.as_str());
        let dir = join_path(get_version_file_path(self.home.as_str()).as_str(), v.as_str());
        let mut steps: Vec<Action> = Vec::new();
        steps.push(Action::CreateSymlink { link, target: dir });
        assert(actions_view(steps@) =~= create_alias_outcome(old(self)@, name@, target@)->Ok_0);
        self.put_alias(name, v);
        Ok(steps)
    }

    /// Removes alias `name`. `default` is refused; an alias that does not
    /// exist is nothing to do.
    pub fn remove_alias(&mut self, name: String) -> (r: Result<Vec<Action>, GvmError>)
        requires
            old(self).wf(),
        ensures
            final(self).wf(),
            final(self)@ == remove_alias_state(old(self)@, name@),
            match r {
                Ok(a) => remove_alias_outcome(old(self)@, name@) == Ok::<Seq<ActionView>, GvmError>(actions_view(a@)),
                Err(e) => remove_alias_outcome(old(self)@, name@) == Err::<Seq<ActionView>, GvmError>(e),
            },
    {
        if str_eq(name.as_str(), "default") {
            return Err(GvmError::ReservedName);
        }
        let mut steps: Vec<Action> = Vec::new();
        match self.find_alias(name.as_str()) {
            None => {
                assert(actions_view(steps@) =~= Seq::<ActionView>::empty());
                assert(self@.aliases.remove(name@) =~= self@.aliases);
                Ok(steps)
            },
            Some(i) => {
                let link = join_path(get_alias_file_path(self.home.as_str()).as_str(), name.as_str());
                steps.push(Action::RemoveSymlink { link });
                proof {
                    lemma_alias_map_lookup(self.aliases@, name@);
                }
                assert(actions_view(steps@) =~= remove_alias_outcome(old(self)@, name@)->Ok_0);
                self.drop_alias_at(i);
                Ok(steps)
            },
        }
    }

    /// Removes the raw version `version`. Refused when it is not installed
    /// or is the active version; aliases are left as they are.
    pub fn remove(&mut self, version: String) -> (r: Result<Vec<Action>, GvmError>)
        requires
            old(self).wf(),
        ensures
            final(self).wf(),
            final(self)@ == remove_state(old(self)@, version@),
            match r {
                Ok(a) => remove_outcome(old(self)@, version@) == Ok::<Seq<ActionView>, GvmError>(actions_view(a@)),
                Err(e) => remove_outcome(old(self)@, version@) == Err::<Seq<ActionView>, GvmError>(e),
            },
    {
        let v = get_real_version(version);
        match self.find_installed(v.as_str()) {
            None => Err(GvmError::NotInstalled),
            Some(i) => {
                proof {
                    assert(version_set(self.installed@).contains(v@));
                }
                let active = match &self.active {
                    Some(a) => str_eq(a.as_str(), v.as_str()),
                    None => false,
                };
                if active {
                    return Err(GvmError::VersionActive);
                }
                let dir = join_path(get_version_file_path(self.home.as_str()).as_str(), v.as_str());
                let mut steps: Vec<Action> = Vec::new();
                steps.push(Action::RemoveDirAll { path: dir });
                assert(actions_view(steps@) =~= remove_outcome(old(self)@, version@)->Ok_0);
                self.remove_installed_at(i);
                Ok(steps)
            },
        }
    }
}

/// Whether `n` is one of the reserved names `default`, `list`, `ls`.
pub fn is_reserved_name(n: &str) -> (r: bool)
    ensures
        r == is_reserved(n@),
{
    str_eq(n, "default") || str_eq(n, "list") || str_eq(n, "ls")
}

/// The steps of an activation of version `v` for the store under `home`.
fn activation_steps(home: &str, v: &str) -> (r: Vec<Action>)
    ensures
        actions_view(r@) == activation_actions(home@, v@),
{
    let mut r: Vec<Action> = Vec::new();
    let version_dir = get_version_file_path(home);
    r.push(Action::WriteFile {
        path: join_path(version_dir.as_str(), "active"),
        contents: String::from_str(v),
    });
    r.push(Action::ReplaceSymlink {
        link: join_path(get_alias_file_path(home).as_str(), "default"),
        target: join_path(version_dir.as_str(), v),
    });
    r.push(Action::CreateDirAll {
        path: join_path(join_path(get_cache_dir(home).as_str(), v).as_str(), "go-build"),
    });
    r.push(Action::CreateDirAll {
        path: join_path(join_path(get_package_file_path(home).as_str(), v).as_str(), "bin"),
    });
    let mut env = environment_steps(home, v);
    r.append(&mut env);
    assert(actions_view(r@) =~= activation_actions(home@, v@));
    r
}

/// The steps that write the environment descriptor of version `v`.
pub fn environment_steps(home: &str, v: &str) -> (r: Vec<Action>)
    ensures
        actions_view(r@) == environment_actions(home@, v@),
{
    let env_dir = get_environment_file_path(home);
    let mut r: Vec<Action> = Vec::new();
    r.push(Action::CreateDirAll { path: env_dir.clone() });
    r.push(Action::WriteFile {
        path: join_path(env_dir.as_str(), "go.env"),
        contents: environment_file_content(home, v),
    });
    assert(actions_view(r@) =~= environment_actions(home@, v@));
    r
}

/// Activating an installed version twice in a row: the second call is a
/// no-op, and afterwards the active marker and the `default` alias both name
/// that version. (When the version is already active before the first call,
/// `default` must name it already: activation does not repair it.)
pub proof fn lemma_activate_twice(s: StoreView, version: Seq<char>)
    requires
        s.installed.contains(normalized(version)),
        s.active == Some(normalized(version)) ==> s.aliases.contains_key("default"@) && s.aliases["default"@]
            == normalized(version),
    ensures
        ({
            let s1 = activate_state(s, version);
            &&& activate_outcome(s1, version) == Ok::<Seq<ActionView>, GvmError>(Seq::empty())
            &&& activate_state(s1, version) == s1
            &&& s1.active == Some(normalized(version))
            &&& s1.aliases.contains_key("default"@)
            &&& s1.aliases["default"@] == normalized(version)
        }),
{
}

/// Removing an alias that does not exist succeeds with nothing to do.
pub proof fn lemma_remove_missing_alias(s: StoreView, n: Seq<char>)
    requires
        !s.aliases.contains_key(n),
        n != "default"@,
    ensures
        remove_alias_outcome(s, n) == Ok::<Seq<ActionView>, GvmError>(Seq::empty()),
        remove_alias_state(s, n) == s,
{
    assert(s.aliases.remove(n) =~= s.aliases);
}

/// Creating an alias named `default`, `list` or `ls` is refused with
/// `ReservedName`, before any step and with the store unchanged.
pub proof fn lemma_reserved_alias_refused(s: StoreView, n: Seq<char>, target: Seq<char>)
    requires
        n == "default"@ || n == "list"@ || n == "ls"@,
    ensures
        create_alias_outcome(s, n, target) == Err::<Seq<ActionView>, GvmError>(GvmError::ReservedName),
        create_alias_state(s, n, target) == s,
{
}

/// Removing an installed version that is not active deletes its directory
/// and nothing else: the other versions, the aliases and the active version
/// stay. Removing the active version is refused with `VersionActive`.
pub proof fn lemma_remove_version(s: StoreView, version: Seq<char>)
    requires
        s.installed.contains(normalized(version)),
    ensures
        s.active != Some(normalized(version)) ==> {
            let s1 = remove_state(s, version);
            &&& remove_outcome(s, version) == Ok::<Seq<ActionView>, GvmError>(
                seq![ActionView::RemoveDirAll { path: goroot(s.home, normalized(version)) }],
            )
            &&& !s1.installed.contains(normalized(version))
            &&& forall|w: Seq<char>| w != normalized(version) ==> (s1.installed.contains(w) <==> s.installed.contains(w))
            &&& s1.aliases == s.aliases
            &&& s1.active == s.active
            &&& s1.home == s.home
        },
        s.active == Some(normalized(version)) ==> remove_outcome(s, version) == Err::<Seq<ActionView>, GvmError>(
            GvmError::VersionActive,
        ) && remove_state(s, version) == s,
{
}

} // verus!
