use vstd::prelude::*;

verus! {

/// How a file differs, in the index or in the worktree.
#[derive(Clone, Copy, Debug, PartialEq, Eq, Structural)]
pub enum FileStatus {
    Added,
    Modified,
    Deleted,
    Renamed,
    Copied,
    TypeChanged,
    Untracked,
    Conflicted,
}

/// One changed file of the repository.
#[derive(Clone, Debug)]
pub struct File {
    /// Path relative to the repository root.
    pub path: String,
    /// Where the file came from, for renames and copies.
    pub old_path: Option<String>,
    /// Status of the file in the index (staged).
    pub index_status: Option<FileStatus>,
    /// Status of the file in the worktree (unstaged).
    pub worktree_status: Option<FileStatus>,
}

/// The status of the repository: its changed files.
#[derive(Clone, Debug)]
pub struct Status {
    pub files_changed: Vec<File>,
}

/// The model of a changed file.
pub struct FileView {
    pub path: Seq<char>,
    pub old_path: Option<Seq<char>>,
    pub index_status: Option<FileStatus>,
    pub worktree_status: Option<FileStatus>,
}

/// The model of an optional text.
pub open spec fn opt_text(s: Option<String>) -> Option<Seq<char>> {
    match s {
        Some(t) => Some(t@),
        None => None,
    }
}

impl View for File {
    type V = FileView;

    open spec fn view(&self) -> FileView {
        FileView {
            path: self.path@,
            old_path: opt_text(self.old_path),
            index_status: self.index_status,
            worktree_status: self.worktree_status,
        }
    }
}

/// The models of a sequence of files.
pub open spec fn files_view(files: Seq<File>) -> Seq<FileView> {
    files.map_values(|f: File| f@)
}

impl View for Status {
    type V = Seq<FileView>;

    open spec fn view(&self) -> Seq<FileView> {
        files_view(self.files_changed@)
    }
}

} // verus!
