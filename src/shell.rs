//! Setting up the user's shell: the init script and the block that sources
//! it from the profile.
use vstd::prelude::*;
use crate::actions::{Action, ActionView, GvmError, actions_view};
use crate::paths::{
    alias_dir, archive_dir, cache_dir, environment_dir, get_alias_file_path, get_archive_file_path,
    get_cache_dir, get_environment_file_path, get_gvm_base_file_path, get_package_file_path,
    get_shell_config_file_path, get_version_file_path, gvm_dir, join, join_path, package_dir,
    shell_config_file, version_dir,
};
use crate::text::{chars_of, contains, contains_chars, ends_with, ends_with_chars, matches_at};

verus! {

/// The line that opens the profile block.
pub const START_MARKER: &'static str = "# >>> gvm initialize >>>";

/// The line that closes the profile block.
pub const END_MARKER: &'static str = "# <<< gvm initialize <<<";

/// The init script up to the root directory's value.
pub const INIT_SCRIPT_HEAD: &'static str = "\n# >>> gvm initialize >>>\nexport GVM_ROOT=\"";

/// The init script after the root directory's value.
pub const INIT_SCRIPT_TAIL: &'static str = "\"
if [ -s \"$HOME/.cargo/bin/gvm\" ] && [ ! -f \"$HOME/.bash_completions/gvm\" ]; then
        gvm completions bash > \"$HOME/.bash_completions/gvm\"
fi

if [ -s \"$GVM_ROOT/environment/go.env\" ]; then
        set -a && source \"$GVM_ROOT/environment/go.env\" && set +a
fi

if [ -s \"$GOROOT/bin\" ]; then
        case \":$PATH:\" in
                *:$GOROOT/bin:*)
                        ;;
                *)
                        export PATH=\"$GOROOT/bin:$PATH\"
                        ;;
        esac
fi

if [ -s \"$GOPATH/bin\" ]; then
        case \":$PATH:\" in
                *:$GOPATH/bin:*)
                        ;;
                *)
                        export PATH=\"$GOPATH/bin:$PATH\"
                        ;;
        esac
fi
# <<< gvm initialize <<<
";

/// The init script for the root directory `root`.
pub open spec fn init_script(root: Seq<char>) -> Seq<char> {
    INIT_SCRIPT_HEAD@ + root + INIT_SCRIPT_TAIL@
}

/// `s` holds the start marker and, after it, the end marker.
pub open spec fn has_block(s: Seq<char>) -> bool {
    exists|i: int, j: int|
        0 <= i && i + START_MARKER@.len() <= j && j + END_MARKER@.len() <= s.len() && #[trigger] s.subrange(
            i,
            i + START_MARKER@.len(),
        ) == START_MARKER@ && #[trigger] s.subrange(j, j + END_MARKER@.len()) == END_MARKER@
}

/// The profile with `block` appended, on a line of its own.
pub open spec fn with_block(profile: Seq<char>, block: Seq<char>) -> Seq<char> {
    if ends_with(profile, "\n"@) {
        profile + block
    } else {
        profile + "\n"@ + block
    }
}

/// Returns the init script that sets up the environment of root directory `gvm_root`.
pub fn get_init_script_content(gvm_root: &str) -> (r: String)
    ensures
        r@ == init_script(gvm_root@),
{
    let mut r = String::from_str(INIT_SCRIPT_HEAD);
    r.append(gvm_root);
    r.append(INIT_SCRIPT_TAIL);
    r
}

/// The first position at or after `from` where `p` occurs in `s`.
fn find_from(s: &Vec<char>, p: &Vec<char>, from: usize) -> (r: Option<usize>)
    ensures
        r matches Some(i) ==> from <= i && i + p@.len() <= s@.len() && s@.subrange(i as int, i + p@.len()) == p@,
        forall|k: int|
            from <= k && k + p@.len() <= s@.len() && (r matches Some(i) ==> k < i) ==> #[trigger] s@.subrange(k, k + p@.len()) != p@,
{
    if p.len() > s.len() {
        return None;
    }
    let last: usize = s.len() - p.len();
    if from > last {
        return None;
    }
    let mut i: usize = from;
    loop
        invariant
            p@.len() <= s@.len(),
            last == s@.len() - p@.len(),
            from <= i <= last,
            forall|k: int| from <= k < i ==> #[trigger] s@.subrange(k, k + p@.len()) != p@,
        decreases last - i,
    {
        if matches_at(s, p, i) {
            return Some(i);
        }
        if i == last {
            return None;
        }
        i = i + 1;
    }
}

/// Whether the profile already holds the block: the start marker and,
/// after it, the end marker.
pub fn has_init_block(profile: &str) -> (r: bool)
    ensures
        r == has_block(profile@),
{
    let s = chars_of(profile);
    let start = chars_of(START_MARKER);
    let end = chars_of(END_MARKER);
    match find_from(&s, &start, 0) {
        None => {
            assert(!has_block(profile@));
            false
        },
        Some(i) => {
            let n: usize = s.len();
            assert(i + start@.len() <= n);
            match find_from(&s, &end, i + start.len()) {
                Some(j) => {
                    assert(s@.subrange(i as int, i + start@.len()) == START_MARKER@);
                    assert(s@.subrange(j as int, j + end@.len()) == END_MARKER@);
                    true
                },
                None => {
                    assert(!has_block(profile@));
                    false
                },
            }
        },
    }
}

/// Appends `block` to the profile, starting a new line first when the
/// profile does not end with one.
pub fn append_init_block(profile: &str, block: &str) -> (r: String)
    ensures
        r@ == with_block(profile@, block@),
{
    let s = chars_of(profile);
    let nl = chars_of("\n");
    let mut r = String::from_str(profile);
    if !ends_with_chars(&s, &nl) {
        r.append("\n");
    }
    r.append(block);
    r
}

/// The directories of the store, in the order they are created.
pub open spec fn base_dirs(home: Seq<char>) -> Seq<ActionView> {
    seq![
        ActionView::CreateDirAll { path: alias_dir(home) },
        ActionView::CreateDirAll { path: archive_dir(home) },
        ActionView::CreateDirAll { path: cache_dir(home) },
        ActionView::CreateDirAll { path: environment_dir(home) },
        ActionView::CreateDirAll { path: package_dir(home) },
        ActionView::CreateDirAll { path: version_dir(home) },
    ]
}

/// The steps of setting up the shell `shell` (a bash) for the user at
/// `home` whose profile holds `profile`.
pub open spec fn init_outcome(shell: Seq<char>, home: Seq<char>, profile: Seq<char>) -> Result<Seq<ActionView>, GvmError> {
    if !contains(shell, "bash"@) || shell_config_file(shell) is None {
        Err(GvmError::UnsupportedShell)
    } else {
        let script = init_script(gvm_dir(home));
        let steps = base_dirs(home).push(
            ActionView::WriteFile { path: join(gvm_dir(home), "init-shell"@), contents: script },
        );
        if has_block(profile) {
            Ok(steps)
        } else {
            Ok(steps.push(ActionView::WriteFile {
                path: join(home, shell_config_file(shell)->0),
                contents: with_block(profile, script),
            }))
        }
    }
}

/// Plans the shell set-up: refused unless the shell is a bash whose profile
/// is known; otherwise the store's directories, the init script, and the
/// block added to the profile unless it is there already.
pub fn init(shell: &str, home: &str, profile: &str) -> (r: Result<Vec<Action>, GvmError>)
    ensures
        match r {
            Ok(a) => init_outcome(shell@, home@, profile@) == Ok::<Seq<ActionView>, GvmError>(actions_view(a@)),
            Err(e) => init_outcome(shell@, home@, profile@) == Err::<Seq<ActionView>, GvmError>(e),
        },
{
    let sc = chars_of(shell);
    let bash = chars_of("bash");
    if !contains_chars(&sc, &bash) {
        return Err(GvmError::UnsupportedShell);
    }
    let config = match get_shell_config_file_path(Some(String::from_str(shell)), home) {
        Ok(c) => c,
        Err(_) => {
            return Err(GvmError::UnsupportedShell);
        },
    };
    let base = get_gvm_base_file_path(home);
    let script = get_init_script_content(base.as_str());
    let mut steps: Vec<Action> = Vec::new();
    steps.push(Action::CreateDirAll { path: get_alias_file_path(home) });
    steps.push(Action::CreateDirAll { path: get_archive_file_path(home) });
    steps.push(Action::CreateDirAll { path: get_cache_dir(home) });
    steps.push(Action::CreateDirAll { path: get_environment_file_path(home) });
    steps.push(Action::CreateDirAll { path: get_package_file_path(home) });
    steps.push(Action::CreateDirAll { path: get_version_file_path(home) });
    steps.push(Action::WriteFile {
        path: join_path(base.as_str(), "init-shell"),
        contents: script.clone(),
    });
    let ghost first = actions_view(steps@);
    if !has_init_block(profile) {
        steps.push(Action::WriteFile {
            path: config,
            contents: append_init_block(profile, script.as_str()),
        });
        assert(actions_view(steps@) =~= first.push(actions_view(steps@).last()));
    }
    assert(first =~= base_dirs(home@).push(
        ActionView::WriteFile { path: join(gvm_dir(home@), "init-shell"@), contents: init_script(gvm_dir(home@)) },
    ));
    Ok(steps)
}

} // verus!
