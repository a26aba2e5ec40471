//! Building the repository status from the changes that git reports.
//!
//! Git reports worktree changes (against the index) and index changes
//! (against HEAD) one entry at a time. Both kinds are merged into one list of
//! changed files, one entry per path, ordered by path.
use vstd::prelude::*;
use vstd::utf8::{decode_utf8, valid_utf8};
use gix::bstr::ByteSlice;
use crate::git::{files_view, opt_text, File, FileStatus, FileView, Status};
use crate::path_order::{compare_paths, law_path_order, path_less, same_path, PathOrder};

verus! {

/// What a worktree entry amounts to, as git's status summary gives it.
#[derive(Clone, Copy, Debug, PartialEq, Eq, Structural)]
pub enum WorktreeSummary {
    Removed,
    Added,
    Modified,
    TypeChange,
    Renamed,
    Copied,
    IntentToAdd,
    Conflict,
}

/// A change between the index and the worktree.
#[derive(Clone, Debug)]
pub struct WorktreeItem {
    /// Bytes of the repository-relative path of the entry.
    pub rela_path: Vec<u8>,
    /// What the change amounts to; `None` where git reports nothing to show
    /// (an entry that merely needs an index update, or a directory entry that
    /// is not untracked).
    pub summary: Option<WorktreeSummary>,
    /// For a rename or copy: bytes of the path of its source.
    pub rewrite_source: Option<Vec<u8>>,
}

/// A change between HEAD and the index.
#[derive(Clone, Debug)]
pub enum IndexChange {
    Addition { location: Vec<u8> },
    Deletion { location: Vec<u8> },
    Modification { location: Vec<u8> },
    Rewrite { source_location: Vec<u8>, location: Vec<u8>, copy: bool },
}

/// The file status that a worktree summary stands for.
pub open spec fn summary_status(summary: WorktreeSummary) -> FileStatus {
    match summary {
        WorktreeSummary::Removed => FileStatus::Deleted,
        WorktreeSummary::Added => FileStatus::Untracked,
        WorktreeSummary::Modified => FileStatus::Modified,
        WorktreeSummary::TypeChange => FileStatus::TypeChanged,
        WorktreeSummary::Renamed => FileStatus::Renamed,
        WorktreeSummary::Copied => FileStatus::Copied,
        WorktreeSummary::IntentToAdd => FileStatus::Added,
        WorktreeSummary::Conflict => FileStatus::Conflicted,
    }
}

/// The file status that a worktree summary stands for.
pub fn worktree_status(summary: WorktreeSummary) -> (r: Option<FileStatus>)
    ensures
        r == Some(summary_status(summary)),
{
    match summary {
        WorktreeSummary::Removed => Some(FileStatus::Deleted),
        WorktreeSummary::Added => Some(FileStatus::Untracked),
        WorktreeSummary::Modified => Some(FileStatus::Modified),
        WorktreeSummary::TypeChange => Some(FileStatus::TypeChanged),
        WorktreeSummary::Renamed => Some(FileStatus::Renamed),
        WorktreeSummary::Copied => Some(FileStatus::Copied),
        WorktreeSummary::IntentToAdd => Some(FileStatus::Added),
        WorktreeSummary::Conflict => Some(FileStatus::Conflicted),
    }
}

/// The text that `gix::bstr::ByteSlice::to_str_lossy` makes of `bytes`.
pub uninterp spec fn lossy_text(bytes: Seq<u8>) -> Seq<char>;

/// Calls `gix::bstr::ByteSlice::to_str_lossy` (UTF-8 decoding that puts
/// U+FFFD in place of invalid sequences). Claimed: the result is the named
/// `lossy_text` of the bytes, and for valid UTF-8 it is their decoding, as
/// the source returns the input itself when it validates.
#[verifier::external_body]
pub(crate) fn path_buf(path: &[u8]) -> (r: String)
    ensures
        r@ == lossy_text(path@),
        valid_utf8(path@) ==> r@ == decode_utf8(path@),
{
    path.to_str_lossy().into_owned()
}

/// The text of an optional path.
pub open spec fn opt_lossy_text(bytes: Option<Vec<u8>>) -> Option<Seq<char>> {
    match bytes {
        Some(b) => Some(lossy_text(b@)),
        None => None,
    }
}

// ---------------------------------------------------------------------------
// The model of the merge
// ---------------------------------------------------------------------------

/// The files are ordered by path, each path once.
pub open spec fn sorted_files(files: Seq<FileView>) -> bool {
    forall|i: int, j: int| 0 <= i < j < files.len() ==> path_less(#[trigger] files[i].path, #[trigger] files[j].path)
}

/// A file has a status in the index or in the worktree.
pub open spec fn has_status(f: FileView) -> bool {
    f.index_status.is_some() || f.worktree_status.is_some()
}

/// The files are ordered by path, each path once, and each has a status.
pub open spec fn well_formed_files(files: Seq<FileView>) -> bool {
    &&& sorted_files(files)
    &&& forall|i: int| 0 <= i < files.len() ==> has_status(#[trigger] files[i])
}

/// How many leading files come before `path`.
pub open spec fn position(files: Seq<FileView>, path: Seq<char>) -> int
    decreases files.len(),
{
    if files.len() == 0 {
        0
    } else if path_less(files[0].path, path) {
        1 + position(files.drop_first(), path)
    } else {
        0
    }
}

/// The files after the entry for `path` is updated with `update`, or, where
/// there is none, `fresh` is inserted in its place.
pub open spec fn upsert(
    files: Seq<FileView>,
    path: Seq<char>,
    update: spec_fn(FileView) -> FileView,
    fresh: FileView,
) -> Seq<FileView> {
    let p = position(files, path);
    if p < files.len() && same_path(files[p].path, path) {
        files.update(p, update(files[p]))
    } else {
        files.insert(p, fresh)
    }
}

/// A worktree change of status `status`, from `old_path` where given,
/// applied to an existing entry: the first source path recorded stays.
pub open spec fn worktree_update(status: FileStatus, old_path: Option<Seq<char>>) -> spec_fn(FileView) -> FileView {
    |f: FileView|
        FileView {
            path: f.path,
            old_path: if f.old_path.is_some() { f.old_path } else { old_path },
            index_status: f.index_status,
            worktree_status: Some(status),
        }
}

/// An index change of status `status`, from `old_path` where given, applied
/// to an existing entry: the first source path recorded stays.
pub open spec fn index_update(status: FileStatus, old_path: Option<Seq<char>>) -> spec_fn(FileView) -> FileView {
    |f: FileView|
        FileView {
            path: f.path,
            old_path: if f.old_path.is_some() { f.old_path } else { old_path },
            index_status: Some(status),
            worktree_status: f.worktree_status,
        }
}

/// The files after a worktree change.
pub open spec fn after_worktree_change(files: Seq<FileView>, item: WorktreeItem) -> Seq<FileView> {
    match item.summary {
        None => files,
        Some(summary) => {
            let path = lossy_text(item.rela_path@);
            let old_path = opt_lossy_text(item.rewrite_source);
            let status = summary_status(summary);
            upsert(
                files,
                path,
                worktree_update(status, old_path),
                FileView { path, old_path, index_status: None, worktree_status: Some(status) },
            )
        },
    }
}

/// The path, source path and status that an index change stands for.
pub open spec fn index_change_parts(change: IndexChange) -> (Seq<char>, Option<Seq<char>>, FileStatus) {
    match change {
        IndexChange::Addition { location } => (lossy_text(location@), None, FileStatus::Added),
        IndexChange::Deletion { location } => (lossy_text(location@), None, FileStatus::Deleted),
        IndexChange::Modification { location } => (lossy_text(location@), None, FileStatus::Modified),
        IndexChange::Rewrite { source_location, location, copy } => (
            lossy_text(location@),
            Some(lossy_text(source_location@)),
            if copy { FileStatus::Copied } else { FileStatus::Renamed },
        ),
    }
}

/// The files after an index change.
pub open spec fn after_index_change(files: Seq<FileView>, change: IndexChange) -> Seq<FileView> {
    let (path, old_path, status) = index_change_parts(change);
    upsert(
        files,
        path,
        index_update(status, old_path),
        FileView { path, old_path, index_status: Some(status), worktree_status: None },
    )
}

// ---------------------------------------------------------------------------
// Lemmas
// ---------------------------------------------------------------------------

proof fn lemma_position(files: Seq<FileView>, path: Seq<char>, i: int)
    requires
        0 <= i <= files.len(),
        forall|j: int| 0 <= j < i ==> path_less(#[trigger] files[j].path, path),
        i == files.len() || !path_less(files[i].path, path),
    ensures
        position(files, path) == i,
    decreases i,
{
    if i > 0 {
        assert(path_less(files[0].path, path));
        let rest = files.drop_first();
        assert forall|j: int| 0 <= j < i - 1 implies path_less(#[trigger] rest[j].path, path) by {
            assert(rest[j] == files[j + 1]);
        }
        lemma_position(rest, path, i - 1);
    }
}

proof fn lemma_insert_sorted(files: Seq<FileView>, p: int, f: FileView)
    requires
        sorted_files(files),
        0 <= p <= files.len(),
        forall|j: int| 0 <= j < p ==> path_less(#[trigger] files[j].path, f.path),
        forall|j: int| p <= j < files.len() ==> path_less(f.path, #[trigger] files[j].path),
    ensures
        sorted_files(files.insert(p, f)),
{
    let n = files.insert(p, f);
    assert forall|i: int, j: int| 0 <= i < j < n.len() implies path_less(#[trigger] n[i].path, #[trigger] n[j].path) by {
        if j < p {
            assert(n[i] == files[i] && n[j] == files[j]);
        } else if j == p {
            assert(n[i] == files[i]);
        } else if i == p {
            assert(n[j] == files[j - 1]);
        } else if i < p {
            assert(n[i] == files[i] && n[j] == files[j - 1]);
        } else {
            assert(n[i] == files[i - 1] && n[j] == files[j - 1]);
        }
    }
}

proof fn lemma_position_props(files: Seq<FileView>, path: Seq<char>)
    ensures
        0 <= position(files, path) <= files.len(),
        forall|j: int| 0 <= j < position(files, path) ==> path_less(#[trigger] files[j].path, path),
        position(files, path) < files.len() ==> !path_less(files[position(files, path)].path, path),
    decreases files.len(),
{
    if files.len() > 0 && path_less(files[0].path, path) {
        let rest = files.drop_first();
        lemma_position_props(rest, path);
        assert forall|j: int| 0 <= j < position(files, path) implies path_less(#[trigger] files[j].path, path) by {
            if j > 0 {
                assert(files[j] == rest[j - 1]);
            }
        }
    }
}

/// Updating or inserting the entry for `path` puts it at `position`, and
/// another merge for the same path finds it there.
proof fn lemma_upsert_then_position(
    files: Seq<FileView>,
    path: Seq<char>,
    update: spec_fn(FileView) -> FileView,
    fresh: FileView,
)
    requires
        fresh.path == path,
        forall|f: FileView| #[trigger] update(f).path == f.path,
    ensures
        ({
            let p = position(files, path);
            let u = upsert(files, path, update, fresh);
            &&& position(u, path) == p
            &&& p < u.len()
            &&& same_path(u[p].path, path)
            &&& u == if p < files.len() && same_path(files[p].path, path) {
                files.update(p, u[p])
            } else {
                files.insert(p, u[p])
            }
        }),
{
    lemma_position_props(files, path);
    law_path_order(path, path, path);
    let p = position(files, path);
    let u = upsert(files, path, update, fresh);
    if p < files.len() && same_path(files[p].path, path) {
        assert forall|j: int| 0 <= j < p implies path_less(#[trigger] u[j].path, path) by {
            assert(u[j] == files[j]);
        }
        law_path_order(files[p].path, path, path);
        lemma_position(u, path, p);
    } else {
        assert forall|j: int| 0 <= j < p implies path_less(#[trigger] u[j].path, path) by {
            assert(u[j] == files[j]);
        }
        lemma_position(u, path, p);
    }
}

/// Two spellings of one path have the same position.
proof fn lemma_position_same_key(files: Seq<FileView>, a: Seq<char>, b: Seq<char>)
    requires
        same_path(a, b),
    ensures
        position(files, a) == position(files, b),
    decreases files.len(),
{
    if files.len() > 0 {
        assert(path_less(files[0].path, a) == path_less(files[0].path, b));
        lemma_position_same_key(files.drop_first(), a, b);
    }
}

/// In sorted files an entry for `path` stands at its position.
proof fn lemma_found_at_position(files: Seq<FileView>, path: Seq<char>, k: int)
    requires
        sorted_files(files),
        0 <= k < files.len(),
        same_path(files[k].path, path),
    ensures
        position(files, path) == k,
{
    lemma_position_props(files, path);
    let p = position(files, path);
    law_path_order(files[k].path, path, path);
    if p < k {
        assert(path_less(files[p].path, files[k].path));
        assert(path_less(files[p].path, path));
    }
}

/// Merges for two different paths, the first before the second, give the
/// same files in either order.
proof fn lemma_upserts_commute(
    files: Seq<FileView>,
    p1: Seq<char>,
    u1: spec_fn(FileView) -> FileView,
    f1: FileView,
    p2: Seq<char>,
    u2: spec_fn(FileView) -> FileView,
    f2: FileView,
)
    requires
        path_less(p1, p2),
        f1.path == p1,
        f2.path == p2,
        forall|f: FileView| #[trigger] u1(f).path == f.path,
        forall|f: FileView| #[trigger] u2(f).path == f.path,
    ensures
        upsert(upsert(files, p1, u1, f1), p2, u2, f2) == upsert(upsert(files, p2, u2, f2), p1, u1, f1),
{
    lemma_position_props(files, p1);
    lemma_position_props(files, p2);
    law_path_order(p1, p2, p2);
    law_path_order(p2, p1, p1);
    let n = files.len();
    let a = position(files, p1);
    let b = position(files, p2);
    let found1 = a < n && same_path(files[a].path, p1);
    let found2 = b < n && same_path(files[b].path, p2);
    if b < a {
        assert(path_less(files[b].path, p1));
        law_path_order(files[b].path, p1, p2);
        assert(false);
    }
    if found1 && a == b {
        assert(path_less(files[a].path, p2));
        assert(false);
    }
    let w1 = upsert(files, p1, u1, f1);
    let w2 = upsert(files, p2, u2, f2);
    if found1 {
        assert(w1 == files.update(a, u1(files[a])));
        assert(u1(files[a]).path == files[a].path);
        assert forall|j: int| 0 <= j < b implies path_less(#[trigger] w1[j].path, p2) by {
            assert(w1[j].path == files[j].path);
        }
        if b < n {
            assert(w1[b] == files[b]);
        }
        lemma_position(w1, p2, b);
        if found2 {
            assert(w2 == files.update(b, u2(files[b])));
            assert forall|j: int| 0 <= j < a implies path_less(#[trigger] w2[j].path, p1) by {
                assert(w2[j] == files[j]);
            }
            assert(w2[a] == files[a]);
            lemma_position(w2, p1, a);
            assert(upsert(w1, p2, u2, f2) =~= upsert(w2, p1, u1, f1));
        } else {
            assert(w2 == files.insert(b, f2));
            assert forall|j: int| 0 <= j < a implies path_less(#[trigger] w2[j].path, p1) by {
                assert(w2[j] == files[j]);
            }
            assert(w2[a] == files[a]);
            lemma_position(w2, p1, a);
            assert(upsert(w1, p2, u2, f2) =~= upsert(w2, p1, u1, f1));
        }
    } else {
        assert(w1 == files.insert(a, f1));
        assert forall|j: int| 0 <= j < b + 1 implies path_less(#[trigger] w1[j].path, p2) by {
            if j < a {
                assert(w1[j] == files[j]);
            } else if j > a {
                assert(w1[j] == files[j - 1]);
            }
        }
        if b < n {
            assert(w1[b + 1] == files[b]);
        }
        lemma_position(w1, p2, b + 1);
        if found2 {
            assert(w2 == files.update(b, u2(files[b])));
            assert(u2(files[b]).path == files[b].path);
            assert forall|j: int| 0 <= j < a implies path_less(#[trigger] w2[j].path, p1) by {
                assert(w2[j].path == files[j].path);
            }
            assert(w2[a].path == files[a].path);
            lemma_position(w2, p1, a);
            assert(upsert(w1, p2, u2, f2) =~= upsert(w2, p1, u1, f1));
        } else {
            assert(w2 == files.insert(b, f2));
            assert forall|j: int| 0 <= j < a implies path_less(#[trigger] w2[j].path, p1) by {
                assert(w2[j] == files[j]);
            }
            if a < b {
                assert(w2[a] == files[a]);
            } else {
                assert(w2[a] == f2);
            }
            lemma_position(w2, p1, a);
            assert(upsert(w1, p2, u2, f2) =~= upsert(w2, p1, u1, f1));
        }
    }
}

// ---------------------------------------------------------------------------
// Laws of the merge
// ---------------------------------------------------------------------------

/// In well-formed files no path has two entries.
pub proof fn law_one_entry_per_path(files: Seq<FileView>)
    requires
        well_formed_files(files),
    ensures
        forall|i: int, j: int|
            0 <= i < files.len() && 0 <= j < files.len() && i != j ==> !same_path(
                #[trigger] files[i].path,
                #[trigger] files[j].path,
            ),
{
    assert forall|i: int, j: int| 0 <= i < files.len() && 0 <= j < files.len() && i != j implies !same_path(
        #[trigger] files[i].path,
        #[trigger] files[j].path,
    ) by {
        law_path_order(files[i].path, files[j].path, files[j].path);
        law_path_order(files[j].path, files[i].path, files[i].path);
        if i < j {
            assert(path_less(files[i].path, files[j].path));
        } else {
            assert(path_less(files[j].path, files[i].path));
        }
    }
}

/// Merging a change keeps every file found so far, each with its path,
/// and adds at most one file.
pub proof fn law_merge_keeps_files(
    files: Seq<FileView>,
    path: Seq<char>,
    update: spec_fn(FileView) -> FileView,
    fresh: FileView,
)
    requires
        forall|f: FileView| #[trigger] update(f).path == f.path,
    ensures
        ({
            let u = upsert(files, path, update, fresh);
            &&& files.len() <= u.len() <= files.len() + 1
            &&& forall|i: int| #![trigger files[i]] 0 <= i < files.len() ==> exists|j: int| 0 <= j < u.len() && #[trigger] u[j].path == files[i].path
        }),
{
    lemma_position_props(files, path);
    let p = position(files, path);
    let u = upsert(files, path, update, fresh);
    assert forall|i: int| #![trigger files[i]] 0 <= i < files.len() implies exists|j: int| 0 <= j < u.len() && #[trigger] u[j].path == files[i].path by {
        if p < files.len() && same_path(files[p].path, path) {
            assert(update(files[p]).path == files[p].path);
            assert(u[i].path == files[i].path);
        } else if i < p {
            assert(u[i] == files[i]);
            assert(u[i].path == files[i].path);
        } else {
            assert(u[i + 1] == files[i]);
            assert(u[i + 1].path == files[i].path);
        }
    }
}

/// Two source paths are alike: both absent, or both present and the same
/// path.
pub open spec fn same_source(a: Option<Seq<char>>, b: Option<Seq<char>>) -> bool {
    match (a, b) {
        (None, None) => true,
        (Some(x), Some(y)) => same_path(x, y),
        _ => false,
    }
}

/// Two entries are alike: the same path, alike source paths and the same
/// statuses.
pub open spec fn same_file(a: FileView, b: FileView) -> bool {
    &&& same_path(a.path, b.path)
    &&& same_source(a.old_path, b.old_path)
    &&& a.index_status == b.index_status
    &&& a.worktree_status == b.worktree_status
}

/// Two lists of files are alike entry by entry.
pub open spec fn same_files(a: Seq<FileView>, b: Seq<FileView>) -> bool {
    &&& a.len() == b.len()
    &&& forall|i: int| 0 <= i < a.len() ==> same_file(#[trigger] a[i], b[i])
}

proof fn lemma_same_files_reflexive(a: Seq<FileView>)
    ensures
        same_files(a, a),
{
    assert forall|i: int| 0 <= i < a.len() implies same_file(#[trigger] a[i], a[i]) by {
        match a[i].old_path {
            Some(x) => assert(same_path(x, x)),
            None => {},
        }
    }
}

/// A worktree change and an index change give alike files whichever is
/// merged first, paths and source paths compared as paths, unless both name
/// one path and carry source paths that are not the same path (the first
/// one recorded stays). The entry for a path that both name then has both
/// statuses.
pub proof fn law_changes_commute(files: Seq<FileView>, item: WorktreeItem, change: IndexChange)
    requires
        ({
            let wpath = lossy_text(item.rela_path@);
            let (ipath, isrc, _) = index_change_parts(change);
            let wsrc = opt_lossy_text(item.rewrite_source);
            item.summary is Some && same_path(wpath, ipath) && wsrc is Some && isrc is Some ==> same_path(
                wsrc->0,
                isrc->0,
            )
        }),
    ensures
        same_files(
            after_index_change(after_worktree_change(files, item), change),
            after_worktree_change(after_index_change(files, change), item),
        ),
        ({
            let path = lossy_text(item.rela_path@);
            let u = after_index_change(after_worktree_change(files, item), change);
            let p = position(files, path);
            item.summary is Some && same_path(path, index_change_parts(change).0) ==> {
                &&& p < u.len()
                &&& same_path(u[p].path, path)
                &&& u[p].worktree_status == Some(summary_status(item.summary->0))
                &&& u[p].index_status == Some(index_change_parts(change).2)
            }
        }),
{
    if item.summary is None {
        assert(after_worktree_change(files, item) == files);
        assert(after_worktree_change(after_index_change(files, change), item) == after_index_change(files, change));
        lemma_same_files_reflexive(after_index_change(files, change));
    } else {
        let wpath = lossy_text(item.rela_path@);
        let (ipath, isrc, ist) = index_change_parts(change);
        let wsrc = opt_lossy_text(item.rewrite_source);
        let wst = summary_status(item.summary->0);
        let wu = worktree_update(wst, wsrc);
        let iu = index_update(ist, isrc);
        let wf = FileView { path: wpath, old_path: wsrc, index_status: None, worktree_status: Some(wst) };
        let ifr = FileView { path: ipath, old_path: isrc, index_status: Some(ist), worktree_status: None };
        assert(forall|f: FileView| #[trigger] wu(f).path == f.path);
        assert(forall|f: FileView| #[trigger] iu(f).path == f.path);
        let a2 = upsert(upsert(files, wpath, wu, wf), ipath, iu, ifr);
        let b2 = upsert(upsert(files, ipath, iu, ifr), wpath, wu, wf);
        assert(a2 == after_index_change(after_worktree_change(files, item), change));
        assert(b2 == after_worktree_change(after_index_change(files, change), item));
        law_path_order(wpath, ipath, ipath);
        if !same_path(wpath, ipath) {
            if path_less(wpath, ipath) {
                lemma_upserts_commute(files, wpath, wu, wf, ipath, iu, ifr);
            } else {
                lemma_upserts_commute(files, ipath, iu, ifr, wpath, wu, wf);
            }
            lemma_same_files_reflexive(a2);
        } else {
            assert forall|f: FileView| #[trigger] same_file(iu(wu(f)), wu(iu(f))) by {
                assert(same_path(f.path, f.path));
                if f.old_path is Some {
                    assert(same_path(f.old_path->0, f.old_path->0));
                } else if wsrc is Some && isrc is Some {
                    law_path_order(wsrc->0, isrc->0, isrc->0);
                } else if wsrc is Some {
                    assert(same_path(wsrc->0, wsrc->0));
                } else if isrc is Some {
                    assert(same_path(isrc->0, isrc->0));
                }
            }
            assert(same_file(iu(wf), wu(ifr))) by {
                if wsrc is Some && isrc is Some {
                } else if wsrc is Some {
                    assert(same_path(wsrc->0, wsrc->0));
                } else if isrc is Some {
                    assert(same_path(isrc->0, isrc->0));
                }
            }
            lemma_same_path_changes_alike(files, wpath, wu, wf, ipath, iu, ifr);
            let p = position(files, wpath);
            if p < files.len() && same_path(files[p].path, wpath) {
                assert(a2[p] == iu(wu(files[p])));
            } else {
                assert(a2[p] == iu(wf));
            }
        }
    }
}

/// Changes of one path, spelled `wpath` and `ipath`, whose updates give
/// alike entries in either order, give alike files in either order.
proof fn lemma_same_path_changes_alike(
    files: Seq<FileView>,
    wpath: Seq<char>,
    wu: spec_fn(FileView) -> FileView,
    wf: FileView,
    ipath: Seq<char>,
    iu: spec_fn(FileView) -> FileView,
    ifr: FileView,
)
    requires
        same_path(wpath, ipath),
        wf.path == wpath,
        ifr.path == ipath,
        forall|f: FileView| #[trigger] wu(f).path == f.path,
        forall|f: FileView| #[trigger] iu(f).path == f.path,
        forall|f: FileView| #[trigger] same_file(iu(wu(f)), wu(iu(f))),
        same_file(iu(wf), wu(ifr)),
    ensures
        ({
            let a2 = upsert(upsert(files, wpath, wu, wf), ipath, iu, ifr);
            let p = position(files, wpath);
            &&& same_files(a2, upsert(upsert(files, ipath, iu, ifr), wpath, wu, wf))
            &&& p < a2.len()
            &&& same_path(a2[p].path, wpath)
            &&& a2[p] == if p < files.len() && same_path(files[p].path, wpath) {
                iu(wu(files[p]))
            } else {
                iu(wf)
            }
        }),
{
    let a1 = upsert(files, wpath, wu, wf);
    let b1 = upsert(files, ipath, iu, ifr);
    let a2 = upsert(a1, ipath, iu, ifr);
    let b2 = upsert(b1, wpath, wu, wf);
    lemma_position_props(files, wpath);
    lemma_position_same_key(files, wpath, ipath);
    let p = position(files, wpath);
    lemma_upsert_then_position(files, wpath, wu, wf);
    lemma_upsert_then_position(files, ipath, iu, ifr);
    lemma_position_same_key(a1, wpath, ipath);
    lemma_position_same_key(b1, wpath, ipath);
    lemma_same_files_reflexive(files);
    if p < files.len() && same_path(files[p].path, wpath) {
        let f = files[p];
        assert(a1 == files.update(p, wu(f)));
        assert(b1 == files.update(p, iu(f)));
        assert(a2 == files.update(p, iu(wu(f))));
        assert(b2 == files.update(p, wu(iu(f))));
        assert(same_file(iu(wu(f)), wu(iu(f))));
        assert forall|i: int| 0 <= i < a2.len() implies same_file(#[trigger] a2[i], b2[i]) by {
            if i != p {
                assert(same_file(files[i], files[i]));
            }
        }
    } else {
        assert(a1 == files.insert(p, wf));
        assert(b1 == files.insert(p, ifr));
        assert(a2 == files.insert(p, iu(wf)));
        assert(b2 == files.insert(p, wu(ifr)));
        assert forall|i: int| 0 <= i < a2.len() implies same_file(#[trigger] a2[i], b2[i]) by {
            if i < p {
                assert(same_file(files[i], files[i]));
            } else if i > p {
                assert(same_file(files[i - 1], files[i - 1]));
            }
        }
    }
}

/// A worktree change and an index change give the very same files, path
/// texts included, whichever is merged first. Where both name one path, each source path they carry must
/// be the same, since the first one recorded stays; and where they spell that
/// path differently, the files must already hold its entry, since a new entry
/// takes the spelling of the change that makes it. The entry for such a path
/// then has both statuses.
pub proof fn law_changes_commute_exactly(files: Seq<FileView>, item: WorktreeItem, change: IndexChange)
    requires
        well_formed_files(files),
        ({
            let wpath = lossy_text(item.rela_path@);
            let (ipath, isrc, _) = index_change_parts(change);
            let wsrc = opt_lossy_text(item.rewrite_source);
            item.summary is Some && same_path(wpath, ipath) ==> {
                &&& (wsrc is Some && isrc is Some ==> wsrc == isrc)
                &&& (wpath != ipath ==> exists|k: int| 0 <= k < files.len() && same_path(#[trigger] files[k].path, wpath))
            }
        }),
    ensures
        after_index_change(after_worktree_change(files, item), change) == after_worktree_change(
            after_index_change(files, change),
            item,
        ),
        ({
            let path = lossy_text(item.rela_path@);
            let u = after_index_change(after_worktree_change(files, item), change);
            let p = position(files, path);
            item.summary is Some && same_path(path, index_change_parts(change).0) ==> {
                &&& p < u.len()
                &&& same_path(u[p].path, path)
                &&& u[p].worktree_status == Some(summary_status(item.summary->0))
                &&& u[p].index_status == Some(index_change_parts(change).2)
            }
        }),
{
    if item.summary is None {
        assert(after_worktree_change(files, item) == files);
        assert(after_worktree_change(after_index_change(files, change), item) == after_index_change(files, change));
    } else {
        lemma_changes_commute_some(files, item, change);
    }
}

/// The law of commuting changes where the worktree change has a summary.
proof fn lemma_changes_commute_some(files: Seq<FileView>, item: WorktreeItem, change: IndexChange)
    requires
        well_formed_files(files),
        item.summary is Some,
        ({
            let wpath = lossy_text(item.rela_path@);
            let (ipath, isrc, _) = index_change_parts(change);
            let wsrc = opt_lossy_text(item.rewrite_source);
            same_path(wpath, ipath) ==> {
                &&& (wsrc is Some && isrc is Some ==> wsrc == isrc)
                &&& (wpath != ipath ==> exists|k: int| 0 <= k < files.len() && same_path(#[trigger] files[k].path, wpath))
            }
        }),
    ensures
        after_index_change(after_worktree_change(files, item), change) == after_worktree_change(
            after_index_change(files, change),
            item,
        ),
        ({
            let path = lossy_text(item.rela_path@);
            let u = after_index_change(after_worktree_change(files, item), change);
            let p = position(files, path);
            same_path(path, index_change_parts(change).0) ==> {
                &&& p < u.len()
                &&& same_path(u[p].path, path)
                &&& u[p].worktree_status == Some(summary_status(item.summary->0))
                &&& u[p].index_status == Some(index_change_parts(change).2)
            }
        }),
{
    let wpath = lossy_text(item.rela_path@);
    let (ipath, isrc, ist) = index_change_parts(change);
    let wsrc = opt_lossy_text(item.rewrite_source);
    let wst = summary_status(item.summary->0);
    let wu = worktree_update(wst, wsrc);
    let iu = index_update(ist, isrc);
    let wf = FileView { path: wpath, old_path: wsrc, index_status: None, worktree_status: Some(wst) };
    let ifr = FileView { path: ipath, old_path: isrc, index_status: Some(ist), worktree_status: None };
    assert(forall|f: FileView| #[trigger] wu(f).path == f.path);
    assert(forall|f: FileView| #[trigger] iu(f).path == f.path);
    let a1 = upsert(files, wpath, wu, wf);
    let b1 = upsert(files, ipath, iu, ifr);
    let a2 = upsert(a1, ipath, iu, ifr);
    let b2 = upsert(b1, wpath, wu, wf);
    assert(a1 == after_worktree_change(files, item));
    assert(b1 == after_index_change(files, change));
    assert(a2 == after_index_change(a1, change));
    assert(b2 == after_worktree_change(b1, item));
    law_path_order(wpath, ipath, ipath);
    if !same_path(wpath, ipath) {
        if path_less(wpath, ipath) {
            lemma_upserts_commute(files, wpath, wu, wf, ipath, iu, ifr);
        } else {
            lemma_upserts_commute(files, ipath, iu, ifr, wpath, wu, wf);
        }
    } else {
        assert forall|f: FileView| #[trigger] iu(wu(f)) == wu(iu(f)) by {}
        if wpath == ipath {
            assert(iu(wf) == wu(ifr));
        }
        lemma_same_path_changes_commute(files, wpath, wu, wf, ipath, iu, ifr);
        let p = position(files, wpath);
        if p < files.len() && same_path(files[p].path, wpath) {
            assert(a2[p] == iu(wu(files[p])));
        } else {
            assert(a2[p] == iu(wf));
        }
    }
}

/// Changes of one path, spelled `wpath` and `ipath`, commute where their
/// updates do and either the spellings agree or the files hold the entry.
proof fn lemma_same_path_changes_commute(
    files: Seq<FileView>,
    wpath: Seq<char>,
    wu: spec_fn(FileView) -> FileView,
    wf: FileView,
    ipath: Seq<char>,
    iu: spec_fn(FileView) -> FileView,
    ifr: FileView,
)
    requires
        sorted_files(files),
        same_path(wpath, ipath),
        wf.path == wpath,
        ifr.path == ipath,
        forall|f: FileView| #[trigger] wu(f).path == f.path,
        forall|f: FileView| #[trigger] iu(f).path == f.path,
        forall|f: FileView| #[trigger] iu(wu(f)) == wu(iu(f)),
        wpath == ipath ==> iu(wf) == wu(ifr),
        wpath != ipath ==> exists|k: int| 0 <= k < files.len() && same_path(#[trigger] files[k].path, wpath),
    ensures
        ({
            let a2 = upsert(upsert(files, wpath, wu, wf), ipath, iu, ifr);
            let p = position(files, wpath);
            &&& a2 == upsert(upsert(files, ipath, iu, ifr), wpath, wu, wf)
            &&& p < a2.len()
            &&& same_path(a2[p].path, wpath)
            &&& a2[p] == if p < files.len() && same_path(files[p].path, wpath) {
                iu(wu(files[p]))
            } else {
                iu(wf)
            }
        }),
{
    let a1 = upsert(files, wpath, wu, wf);
    let b1 = upsert(files, ipath, iu, ifr);
    let a2 = upsert(a1, ipath, iu, ifr);
    let b2 = upsert(b1, wpath, wu, wf);
    lemma_position_props(files, wpath);
    lemma_position_same_key(files, wpath, ipath);
    let p = position(files, wpath);
    lemma_upsert_then_position(files, wpath, wu, wf);
    lemma_upsert_then_position(files, ipath, iu, ifr);
    lemma_position_same_key(a1, wpath, ipath);
    lemma_position_same_key(b1, wpath, ipath);
    if p < files.len() && same_path(files[p].path, wpath) {
        let f = files[p];
        assert(a1 == files.update(p, wu(f)));
        assert(b1 == files.update(p, iu(f)));
        assert(a2 == a1.update(p, iu(a1[p])));
        assert(b2 == b1.update(p, wu(b1[p])));
        assert(iu(wu(f)) == wu(iu(f)));
        assert(a2 =~= b2);
        assert(a2[p] == iu(wu(f)));
    } else {
        if wpath != ipath {
            let k = choose|k: int| 0 <= k < files.len() && same_path(#[trigger] files[k].path, wpath);
            lemma_found_at_position(files, wpath, k);
            assert(false);
        }
        assert(a1 == files.insert(p, wf));
        assert(b1 == files.insert(p, ifr));
        assert(a2 == a1.update(p, iu(wf)));
        assert(b2 == b1.update(p, wu(ifr)));
        assert(iu(wf) == wu(ifr));
        assert(a2 =~= b2);
        assert(a2[p] == iu(wf));
    }
}

/// The status that an index change records in the index: an addition is
/// Added, a deletion Deleted, a modification Modified, and a rewrite Copied
/// or Renamed by its copy flag.
pub open spec fn index_change_status(change: IndexChange) -> FileStatus {
    match change {
        IndexChange::Addition { .. } => FileStatus::Added,
        IndexChange::Deletion { .. } => FileStatus::Deleted,
        IndexChange::Modification { .. } => FileStatus::Modified,
        IndexChange::Rewrite { copy, .. } => if copy { FileStatus::Copied } else { FileStatus::Renamed },
    }
}

/// Merging an index change for `path` into sorted files touches only the
/// entry for that path: the files before its position stay, the files
/// after it stay (shifted by one where the entry is new), and the entry has
/// the index status of the change's kind; an existing entry keeps its path,
/// its worktree status and any source path it had, taking the change's
/// source path otherwise; a new entry has the change's path and source
/// path and no worktree status.
pub proof fn law_index_change_entry(files: Seq<FileView>, change: IndexChange)
    ensures
        ({
            let path = match change {
                IndexChange::Addition { location } => lossy_text(location@),
                IndexChange::Deletion { location } => lossy_text(location@),
                IndexChange::Modification { location } => lossy_text(location@),
                IndexChange::Rewrite { location, .. } => lossy_text(location@),
            };
            let source = match change {
                IndexChange::Rewrite { source_location, .. } => Some(lossy_text(source_location@)),
                _ => None,
            };
            let u = after_index_change(files, change);
            let p = position(files, path);
            let found = p < files.len() && same_path(files[p].path, path);
            &&& 0 <= p < u.len()
            &&& u.len() == if found { files.len() } else { files.len() + 1 }
            &&& forall|j: int| 0 <= j < p ==> #[trigger] u[j] == files[j]
            &&& found ==> forall|j: int| p < j < files.len() ==> #[trigger] u[j] == files[j]
            &&& !found ==> forall|j: int| p <= j < files.len() ==> #[trigger] u[j + 1] == files[j]
            &&& u[p].index_status == Some(index_change_status(change))
            &&& u[p].path == if found { files[p].path } else { path }
            &&& u[p].worktree_status == if found { files[p].worktree_status } else { None }
            &&& u[p].old_path == if found && files[p].old_path is Some { files[p].old_path } else { source }
        }),
{
    lemma_position_props(files, index_change_parts(change).0);
}

/// Merging a worktree change with a summary for `path` into files touches
/// only the entry for that path, in the same way, and the entry has the
/// worktree status of the summary: Removed is Deleted, Added is Untracked,
/// Modified is Modified, TypeChange is TypeChanged, Renamed is Renamed,
/// Copied is Copied, IntentToAdd is Added and Conflict is Conflicted. An
/// existing entry keeps its index status; a new one has none. A change
/// without a summary leaves the files as they are.
pub proof fn law_worktree_change_entry(files: Seq<FileView>, item: WorktreeItem)
    ensures
        item.summary is None ==> after_worktree_change(files, item) == files,
        item.summary is Some ==> ({
            let path = lossy_text(item.rela_path@);
            let source = opt_lossy_text(item.rewrite_source);
            let status = match item.summary->0 {
                WorktreeSummary::Removed => FileStatus::Deleted,
                WorktreeSummary::Added => FileStatus::Untracked,
                WorktreeSummary::Modified => FileStatus::Modified,
                WorktreeSummary::TypeChange => FileStatus::TypeChanged,
                WorktreeSummary::Renamed => FileStatus::Renamed,
                WorktreeSummary::Copied => FileStatus::Copied,
                WorktreeSummary::IntentToAdd => FileStatus::Added,
                WorktreeSummary::Conflict => FileStatus::Conflicted,
            };
            let u = after_worktree_change(files, item);
            let p = position(files, path);
            let found = p < files.len() && same_path(files[p].path, path);
            &&& 0 <= p < u.len()
            &&& u.len() == if found { files.len() } else { files.len() + 1 }
            &&& forall|j: int| 0 <= j < p ==> #[trigger] u[j] == files[j]
            &&& found ==> forall|j: int| p < j < files.len() ==> #[trigger] u[j] == files[j]
            &&& !found ==> forall|j: int| p <= j < files.len() ==> #[trigger] u[j + 1] == files[j]
            &&& u[p].worktree_status == Some(status)
            &&& u[p].path == if found { files[p].path } else { path }
            &&& u[p].index_status == if found { files[p].index_status } else { None }
            &&& u[p].old_path == if found && files[p].old_path is Some { files[p].old_path } else { source }
        }),
{
    lemma_position_props(files, lossy_text(item.rela_path@));
}

// ---------------------------------------------------------------------------
// The merge
// ---------------------------------------------------------------------------

/// The changed files found so far, ordered by path, one entry per path.
pub struct StatusBuilder {
    files: Vec<File>,
}

impl View for StatusBuilder {
    type V = Seq<FileView>;

    closed spec fn view(&self) -> Seq<FileView> {
        files_view(self.files@)
    }
}

impl StatusBuilder {
    /// The builder's files are ordered by path, each path once, and each has
    /// a status.
    pub open spec fn wf(&self) -> bool {
        well_formed_files(self@)
    }

    /// A builder with no files.
    pub fn new() -> (r: StatusBuilder)
        ensures
            r@ == Seq::<FileView>::empty(),
            r.wf(),
    {
        let r = StatusBuilder { files: Vec::new() };
        assert(r@ =~= Seq::<FileView>::empty());
        r
    }

    /// The index of the entry for `path`, or of the place where it belongs,
    /// and whether there is such an entry.
    fn find_slot(&self, path: &str) -> (r: (usize, bool))
        requires
            self.wf(),
        ensures
            r.0 <= self@.len(),
            r.0 == position(self@, path@),
            r.1 == (r.0 < self@.len() && same_path(self@[r.0 as int].path, path@)),
            forall|j: int| 0 <= j < r.0 ==> path_less(#[trigger] self@[j].path, path@),
            !r.1 ==> forall|j: int| r.0 <= j < self@.len() ==> path_less(path@, #[trigger] self@[j].path),
    {
        let n = self.files.len();
        let mut i: usize = 0;
        while i < n
            invariant
                n == self@.len(),
                n == self.files@.len(),
                i <= n,
                self.wf(),
                forall|j: int| 0 <= j < i ==> path_less(#[trigger] self@[j].path, path@),
            decreases n - i,
        {
            assert(self@[i as int] == self.files@[i as int]@);
            let c = compare_paths(self.files[i].path.as_str(), path);
            proof {
                law_path_order(self@[i as int].path, path@, path@);
            }
            match c {
                PathOrder::Less => {
                    i = i + 1;
                },
                PathOrder::Same => {
                    proof {
                        lemma_position(self@, path@, i as int);
                    }
                    return (i, true);
                },
                PathOrder::Greater => {
                    proof {
                        lemma_position(self@, path@, i as int);
                        assert forall|j: int| i <= j < n implies path_less(path@, #[trigger] self@[j].path) by {
                            if j > i {
                                assert(path_less(self@[i as int].path, self@[j].path));
                                law_path_order(path@, self@[i as int].path, self@[j].path);
                            }
                        }
                    }
                    return (i, false);
                },
            }
        }
        proof {
            lemma_position(self@, path@, i as int);
        }
        (i, false)
    }

    /// Records `status` in the worktree for `path`, from `old_path` where
    /// given; creates the entry if there is none.
    fn record(&mut self, path: String, old_path: Option<String>, status: FileStatus, in_index: bool)
        requires
            old(self).wf(),
        ensures
            final(self).wf(),
            final(self)@ == upsert(
                old(self)@,
                path@,
                if in_index {
                    index_update(status, opt_text(old_path))
                } else {
                    worktree_update(status, opt_text(old_path))
                },
                FileView {
                    path: path@,
                    old_path: opt_text(old_path),
                    index_status: if in_index { Some(status) } else { None },
                    worktree_status: if in_index { None } else { Some(status) },
                },
            ),
    {
        let ghost before = self@;
        let ghost op = opt_text(old_path);
        let ghost update = if in_index { index_update(status, op) } else { worktree_update(status, op) };
        let (i, found) = self.find_slot(path.as_str());
        if found {
            let ghost f0 = self@[i as int];
            let kept = match &self.files[i].old_path {
                Some(p) => Some(p.clone()),
                None => old_path,
            };
            let entry = &mut self.files[i];
            entry.old_path = kept;
            if in_index {
                entry.index_status = Some(status);
            } else {
                entry.worktree_status = Some(status);
            }
            proof {
                assert(self@ =~= before.update(i as int, update(f0)));
                assert forall|a: int, b: int| 0 <= a < b < self@.len() implies path_less(
                    #[trigger] self@[a].path,
                    #[trigger] self@[b].path,
                ) by {
                    assert(before[a].path == self@[a].path && before[b].path == self@[b].path);
                }
                assert forall|a: int| 0 <= a < self@.len() implies has_status(#[trigger] self@[a]) by {
                    if a != i {
                        assert(self@[a] == before[a]);
                    }
                }
            }
        } else {
            let file = File {
                path,
                old_path,
                index_status: if in_index { Some(status) } else { None },
                worktree_status: if in_index { None } else { Some(status) },
            };
            let ghost fv = file@;
            self.files.insert(i, file);
            proof {
                assert(self@ =~= before.insert(i as int, fv));
                lemma_insert_sorted(before, i as int, fv);
                assert forall|a: int| 0 <= a < self@.len() implies has_status(#[trigger] self@[a]) by {
                    if a < i {
                        assert(self@[a] == before[a]);
                    } else if a > i {
                        assert(self@[a] == before[a - 1]);
                    }
                }
            }
        }
    }

    /// Merges a worktree change into the files: the entry for its path gets
    /// the change's status as its worktree status (and the change's source
    /// path, if it has none yet), or is created; a change with no summary
    /// leaves the files as they are.
    pub fn apply_worktree_change(&mut self, item: &WorktreeItem)
        requires
            old(self).wf(),
        ensures
            final(self).wf(),
            final(self)@ == after_worktree_change(old(self)@, *item),
    {
        let status = match item.summary {
            Some(summary) => match worktree_status(summary) {
                Some(status) => status,
                None => {
                    return;
                },
            },
            None => {
                return;
            },
        };
        let path = path_buf(item.rela_path.as_slice());
        let old_path = match &item.rewrite_source {
            Some(source) => Some(path_buf(source.as_slice())),
            None => None,
        };
        self.record(path, old_path, status, false);
    }

    /// Merges an index change into the files: the entry for its path gets
    /// the change's status as its index status (and the change's source
    /// path, if it has none yet), or is created.
    pub fn apply_index_change(&mut self, change: &IndexChange)
        requires
            old(self).wf(),
        ensures
            final(self).wf(),
            final(self)@ == after_index_change(old(self)@, *change),
    {
        let (path, old_path, status) = match change {
            IndexChange::Addition { location } => (path_buf(location.as_slice()), None, FileStatus::Added),
            IndexChange::Deletion { location } => (path_buf(location.as_slice()), None, FileStatus::Deleted),
            IndexChange::Modification { location } => (path_buf(location.as_slice()), None, FileStatus::Modified),
            IndexChange::Rewrite { source_location, location, copy } => (
                path_buf(location.as_slice()),
                Some(path_buf(source_location.as_slice())),
                if *copy { FileStatus::Copied } else { FileStatus::Renamed },
            ),
        };
        self.record(path, old_path, status, true);
    }

    /// The status made of the files found, in path order.
    pub fn into_status(self) -> (r: Status)
        requires
            self.wf(),
        ensures
            r@ == self@,
            well_formed_files(r@),
    {
        Status { files_changed: self.files }
    }
}

} // verus!
