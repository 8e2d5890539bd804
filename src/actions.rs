//! The filesystem steps that the store's operations ask for, and the
//! errors they report.
use vstd::prelude::*;

verus! {

/// Why an operation was refused.
#[derive(Debug, Clone, Copy, PartialEq, Eq, Structural)]
pub enum GvmError {
    /// The version is not installed.
    NotInstalled,
    /// The version is installed already.
    AlreadyInstalled,
    /// An alias of that name exists already.
    AliasExists,
    /// The name is reserved (`default`, `list`, `ls`).
    ReservedName,
    /// The version is not in the release catalog, or is there more than once.
    NotFound,
    /// The version is the active one and cannot be removed.
    VersionActive,
    /// The shell is not one that the profile set-up supports.
    UnsupportedShell,
    /// A filesystem step failed.
    IoFailure,
}

/// One filesystem step, with every path spelled out.
#[derive(Debug, PartialEq, Eq)]
pub enum Action {
    /// Replace the whole content of a file, atomically for readers.
    WriteFile { path: String, contents: String },
    /// Point `link` at `target`, replacing any link that is there.
    ReplaceSymlink { link: String, target: String },
    /// Create the link `link` pointing at `target`.
    CreateSymlink { link: String, target: String },
    /// Remove the link `link` if it is a symbolic link.
    RemoveSymlink { link: String },
    /// Create a directory and its parents; one that exists is fine.
    CreateDirAll { path: String },
    /// Remove a directory tree.
    RemoveDirAll { path: String },
}

/// An `Action` with its strings as character sequences.
pub enum ActionView {
    WriteFile { path: Seq<char>, contents: Seq<char> },
    ReplaceSymlink { link: Seq<char>, target: Seq<char> },
    CreateSymlink { link: Seq<char>, target: Seq<char> },
    RemoveSymlink { link: Seq<char> },
    CreateDirAll { path: Seq<char> },
    RemoveDirAll { path: Seq<char> },
}

impl View for Action {
    type V = ActionView;

    open spec fn view(&self) -> ActionView {
        match self {
            Action::WriteFile { path, contents } => ActionView::WriteFile {
                path: path@,
                contents: contents@,
            },
            Action::ReplaceSymlink { link, target } => ActionView::ReplaceSymlink {
                link: link@,
                target: target@,
            },
            Action::CreateSymlink { link, target } => ActionView::CreateSymlink {
                link: link@,
                target: target@,
            },
            Action::RemoveSymlink { link } => ActionView::RemoveSymlink { link: link@ },
            Action::CreateDirAll { path } => ActionView::CreateDirAll { path: path@ },
            Action::RemoveDirAll { path } => ActionView::RemoveDirAll { path: path@ },
        }
    }
}

/// The views of a list of actions.
pub open spec fn actions_view(a: Seq<Action>) -> Seq<ActionView> {
    a.map_values(|x: Action| x@)
}

} // verus!
