//! A standalone model of the repository's changes: the files that differ and
//! the displayed names of their statuses.
use vstd::prelude::*;

verus! {

/// How a file differs, in the index or in the worktree.
#[derive(Clone, Copy, Debug, PartialEq, Eq, Structural)]
pub enum FileStatus {
    Added,
    Modified,
    Deleted,
    Renamed,
    Copied,
    TypeChanged,
    Untracked,
    Conflicted,
}

/// The name of a status, as it is displayed.
pub open spec fn status_name(s: FileStatus) -> Seq<char> {
    match s {
        FileStatus::Added => "added"@,
        FileStatus::Modified => "modified"@,
        FileStatus::Deleted => "deleted"@,
        FileStatus::Renamed => "renamed"@,
        FileStatus::Copied => "copied"@,
        FileStatus::TypeChanged => "type changed"@,
        FileStatus::Untracked => "untracked"@,
        FileStatus::Conflicted => "conflicted"@,
    }
}

impl FileStatus {
    /// The name of the status, as it is displayed.
    pub fn label(&self) -> (r: &'static str)
        ensures
            r@ == status_name(*self),
    {
        match self {
            FileStatus::Added => "added",
            FileStatus::Modified => "modified",
            FileStatus::Deleted => "deleted",
            FileStatus::Renamed => "renamed",
            FileStatus::Copied => "copied",
            FileStatus::TypeChanged => "type changed",
            FileStatus::Untracked => "untracked",
            FileStatus::Conflicted => "conflicted",
        }
    }

    /// The name of the status, as text.
    pub fn to_string(&self) -> (r: String)
        ensures
            r@ == status_name(*self),
    {
        String::from_str(self.label())
    }
}

/// One changed file of the repository.
#[derive(Clone, Debug)]
pub struct FileChange {
    pub path: String,
    pub old_path: Option<String>,
    pub index_status: Option<FileStatus>,
    pub worktree_status: Option<FileStatus>,
}

/// The changed files of the repository.
#[derive(Clone, Debug)]
pub struct RepoState {
    pub file_changes: Vec<FileChange>,
}

impl Default for RepoState {
    fn default() -> (r: Self)
        ensures
            r.file_changes@.len() == 0,
    {
        RepoState { file_changes: Vec::new() }
    }
}

} // verus!
