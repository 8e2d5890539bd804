//! The on-disk layout under the user's home directory. Paths are strings;
//! `join` appends a relative segment with one separator and lets an
//! absolute segment replace the base, as `Path::join` does.
use vstd::prelude::*;
use crate::text::{chars_of, ends_with, ends_with_chars};

verus! {

/// `seg` appended to `base` as a path component.
pub open spec fn join(base: Seq<char>, seg: Seq<char>) -> Seq<char> {
    if seg.len() > 0 && seg[0] == '/' {
        seg
    } else if base.len() == 0 || base.last() == '/' {
        base + seg
    } else {
        base + seq!['/'] + seg
    }
}

/// `<home>/.gvm`
pub open spec fn gvm_dir(home: Seq<char>) -> Seq<char> {
    join(home, ".gvm"@)
}

/// `<home>/.gvm/cache`
pub open spec fn cache_dir(home: Seq<char>) -> Seq<char> {
    join(gvm_dir(home), "cache"@)
}

/// `<home>/.gvm/environment`
pub open spec fn environment_dir(home: Seq<char>) -> Seq<char> {
    join(gvm_dir(home), "environment"@)
}

/// `<home>/.gvm/version`
pub open spec fn version_dir(home: Seq<char>) -> Seq<char> {
    join(gvm_dir(home), "version"@)
}

/// `<home>/.gvm/package`
pub open spec fn package_dir(home: Seq<char>) -> Seq<char> {
    join(gvm_dir(home), "package"@)
}

/// `<home>/.gvm/archive`
pub open spec fn archive_dir(home: Seq<char>) -> Seq<char> {
    join(gvm_dir(home), "archive"@)
}

/// `<home>/.gvm/alias`
pub open spec fn alias_dir(home: Seq<char>) -> Seq<char> {
    join(gvm_dir(home), "alias"@)
}

/// Appends `seg` to `base` as a path component.
pub fn join_path(base: &str, seg: &str) -> (r: String)
    ensures
        r@ == join(base@, seg@),
{
    let sc = chars_of(seg);
    if sc.len() > 0 && sc[0] == '/' {
        return String::from_str(seg);
    }
    let bc = chars_of(base);
    let mut r = String::from_str(base);
    if bc.len() == 0 || bc[bc.len() - 1] == '/' {
        r.append(seg);
        r
    } else {
        proof {
            reveal_strlit("/");
        }
        r.append("/");
        r.append(seg);
        assert(r@ =~= base@ + seq!['/'] + seg@);
        r
    }
}

/// Returns the base directory of the version manager, `<home>/.gvm`.
pub fn get_gvm_base_file_path(home: &str) -> (r: String)
    ensures
        r@ == gvm_dir(home@),
{
    join_path(home, ".gvm")
}

/// Returns the cache directory, `<home>/.gvm/cache`.
pub fn get_cache_dir(home: &str) -> (r: String)
    ensures
        r@ == cache_dir(home@),
{
    join_path(get_gvm_base_file_path(home).as_str(), "cache")
}

/// Returns the environment directory, `<home>/.gvm/environment`.
pub fn get_environment_file_path(home: &str) -> (r: String)
    ensures
        r@ == environment_dir(home@),
{
    join_path(get_gvm_base_file_path(home).as_str(), "environment")
}

/// Returns the directory of installed versions, `<home>/.gvm/version`.
pub fn get_version_file_path(home: &str) -> (r: String)
    ensures
        r@ == version_dir(home@),
{
    join_path(get_gvm_base_file_path(home).as_str(), "version")
}

/// Returns the package directory, `<home>/.gvm/package`.
pub fn get_package_file_path(home: &str) -> (r: String)
    ensures
        r@ == package_dir(home@),
{
    join_path(get_gvm_base_file_path(home).as_str(), "package")
}

/// Returns the archive directory, `<home>/.gvm/archive`.
pub fn get_archive_file_path(home: &str) -> (r: String)
    ensures
        r@ == archive_dir(home@),
{
    join_path(get_gvm_base_file_path(home).as_str(), "archive")
}

/// Returns the alias directory, `<home>/.gvm/alias`.
pub fn get_alias_file_path(home: &str) -> (r: String)
    ensures
        r@ == alias_dir(home@),
{
    join_path(get_gvm_base_file_path(home).as_str(), "alias")
}

/// The profile file of a shell: `.bashrc` for a path ending in `/bash`,
/// `.zshrc` for one ending in `/zsh`, none for any other.
pub open spec fn shell_config_file(shell: Seq<char>) -> Option<Seq<char>> {
    if ends_with(shell, "/bash"@) {
        Some(".bashrc"@)
    } else if ends_with(shell, "/zsh"@) {
        Some(".zshrc"@)
    } else {
        None
    }
}

/// The message for a shell other than bash or zsh.
pub open spec fn unsupported_shell_message(shell: Seq<char>) -> Seq<char> {
    "Unsupported shell: "@ + shell
}

/// Determines the profile file of the user's shell (`None` when the shell is unknown).
pub fn get_shell_config_file_path(shell: Option<String>, home: &str) -> (r: Result<String, String>)
    ensures
        shell is None ==> r is Err && r->Err_0@ == "Failed to retrieve SHELL environment variable"@,
        shell matches Some(sh) ==> match shell_config_file(sh@) {
            Some(f) => r is Ok && r->Ok_0@ == join(home@, f),
            None => r is Err && r->Err_0@ == unsupported_shell_message(sh@),
        },
{
    match shell {
        None => Err(String::from_str("Failed to retrieve SHELL environment variable")),
        Some(sh) => {
            let sc = chars_of(sh.as_str());
            let bash = chars_of("/bash");
            let zsh = chars_of("/zsh");
            if ends_with_chars(&sc, &bash) {
                Ok(join_path(home, ".bashrc"))
            } else if ends_with_chars(&sc, &zsh) {
                Ok(join_path(home, ".zshrc"))
            } else {
                let mut m = String::from_str("Unsupported shell: ");
                m.append(sh.as_str());
                Err(m)
            }
        },
    }
}

} // verus!
