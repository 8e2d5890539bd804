//! The environment descriptor written on every activation, and the shell
//! initialization block added to the user's profile.
use vstd::prelude::*;
use vstd::string::StrSliceExecFns;
use crate::paths::{
    cache_dir, environment_dir, get_cache_dir, get_environment_file_path, get_package_file_path,
    get_version_file_path, join, join_path, package_dir, version_dir,
};
use crate::text::chars_of;

verus! {

/// `s` with every `"` preceded by a backslash.
pub open spec fn escape_quotes(s: Seq<char>) -> Seq<char>
    decreases s.len(),
{
    if s.len() == 0 {
        s
    } else {
        escape_quotes(s.drop_last()) + if s.last() == '"' {
            seq!['\\', '"']
        } else {
            seq![s.last()]
        }
    }
}

/// A value that must be quoted: it holds a space or a quote.
pub open spec fn needs_quotes(v: Seq<char>) -> bool {
    v.contains(' ') || v.contains('"') || v.contains('\'')
}

/// One `KEY=value` line; a value holding a space or a quote is written in
/// double quotes, with its double quotes escaped.
pub open spec fn env_line(key: Seq<char>, value: Seq<char>) -> Seq<char> {
    if needs_quotes(value) {
        key + "=\""@ + escape_quotes(value) + "\"\n"@
    } else {
        key + "="@ + value + "\n"@
    }
}

/// `<home>/.gvm/environment/go.env`
pub open spec fn env_file(home: Seq<char>) -> Seq<char> {
    join(environment_dir(home), "go.env"@)
}

/// The root of an installed version: `<home>/.gvm/version/<v>`.
pub open spec fn goroot(home: Seq<char>, v: Seq<char>) -> Seq<char> {
    join(version_dir(home), v)
}

/// The build cache of a version: `<home>/.gvm/cache/<v>/go-build`.
pub open spec fn gocache(home: Seq<char>, v: Seq<char>) -> Seq<char> {
    join(join(cache_dir(home), v), "go-build"@)
}

/// The package root of a version: `<home>/.gvm/package/<v>`.
pub open spec fn gopath(home: Seq<char>, v: Seq<char>) -> Seq<char> {
    join(package_dir(home), v)
}

/// The whole environment descriptor for version `v`.
pub open spec fn env_content(home: Seq<char>, v: Seq<char>) -> Seq<char> {
    env_line("GOROOT"@, goroot(home, v)) + env_line("GOCACHE"@, gocache(home, v)) + env_line(
        "GOPATH"@,
        gopath(home, v),
    ) + env_line("GOENV"@, env_file(home))
}

fn has_char(v: &Vec<char>, c: char) -> (r: bool)
    ensures
        r == v@.contains(c),
{
    let mut i: usize = 0;
    while i < v.len()
        invariant
            i <= v@.len(),
            forall|k: int| 0 <= k < i ==> v@[k] != c,
        decreases v@.len() - i,
    {
        if v[i] == c {
            return true;
        }
        i = i + 1;
    }
    false
}

/// `value` with its double quotes escaped.
fn escape(value: &str) -> (r: String)
    ensures
        r@ == escape_quotes(value@),
{
    let cs = chars_of(value);
    let mut r = String::new();
    let mut i: usize = 0;
    proof {
        assert(value@.subrange(0, 0) =~= Seq::<char>::empty());
    }
    while i < cs.len()
        invariant
            cs@ == value@,
            i <= cs@.len(),
            r@ == escape_quotes(value@.subrange(0, i as int)),
        decreases cs@.len() - i,
    {
        proof {
            let next = value@.subrange(0, i + 1);
            assert(next.drop_last() =~= value@.subrange(0, i as int));
            assert(next.last() == cs@[i as int]);
        }
        if cs[i] == '"' {
            proof {
                reveal_strlit("\\\"");
                assert("\\\""@ =~= seq!['\\', '"']);
            }
            r.append("\\\"");
        } else {
            let one = value.substring_char(i, i + 1);
            assert(one@ =~= seq![cs@[i as int]]);
            r.append(one);
        }
        i = i + 1;
    }
    assert(value@.subrange(0, i as int) =~= value@);
    r
}

/// Renders one `KEY=value` line of the environment descriptor.
pub fn render_env_line(key: &str, value: &str) -> (r: String)
    ensures
        r@ == env_line(key@, value@),
{
    let vc = chars_of(value);
    let mut r = String::from_str(key);
    if has_char(&vc, ' ') || has_char(&vc, '"') || has_char(&vc, '\'') {
        r.append("=\"");
        r.append(escape(value).as_str());
        r.append("\"\n");
    } else {
        r.append("=");
        r.append(value);
        r.append("\n");
    }
    r
}

/// Renders the environment descriptor of version `version`: the lines for
/// `GOROOT`, `GOCACHE`, `GOPATH` and `GOENV`, in that order.
pub fn environment_file_content(home: &str, version: &str) -> (r: String)
    ensures
        r@ == env_content(home@, version@),
{
    let root = join_path(get_version_file_path(home).as_str(), version);
    let cache = join_path(join_path(get_cache_dir(home).as_str(), version).as_str(), "go-build");
    let path = join_path(get_package_file_path(home).as_str(), version);
    let env = join_path(get_environment_file_path(home).as_str(), "go.env");
    let mut r = render_env_line("GOROOT", root.as_str());
    r.append(render_env_line("GOCACHE", cache.as_str()).as_str());
    r.append(render_env_line("GOPATH", path.as_str()).as_str());
    r.append(render_env_line("GOENV", env.as_str()).as_str());
    r
}

} // verus!
