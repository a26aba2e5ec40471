use gitui::git::FileStatus;
use gitui::path_order::{compare_paths, PathOrder};
use gitui::status::{worktree_status, IndexChange, StatusBuilder, WorktreeItem, WorktreeSummary};

fn worktree(path: &str, summary: Option<WorktreeSummary>, source: Option<&str>) -> WorktreeItem {
    WorktreeItem {
        rela_path: path.as_bytes().to_vec(),
        summary,
        rewrite_source: source.map(|s| s.as_bytes().to_vec()),
    }
}

fn paths(b: StatusBuilder) -> Vec<String> {
    b.into_status().files_changed.into_iter().map(|f| f.path).collect()
}

#[test]
fn worktree_summaries_map_to_statuses() {
    assert_eq!(worktree_status(WorktreeSummary::Removed), Some(FileStatus::Deleted));
    assert_eq!(worktree_status(WorktreeSummary::Added), Some(FileStatus::Untracked));
    assert_eq!(worktree_status(WorktreeSummary::Modified), Some(FileStatus::Modified));
    assert_eq!(worktree_status(WorktreeSummary::TypeChange), Some(FileStatus::TypeChanged));
    assert_eq!(worktree_status(WorktreeSummary::Renamed), Some(FileStatus::Renamed));
    assert_eq!(worktree_status(WorktreeSummary::Copied), Some(FileStatus::Copied));
    assert_eq!(worktree_status(WorktreeSummary::IntentToAdd), Some(FileStatus::Added));
    assert_eq!(worktree_status(WorktreeSummary::Conflict), Some(FileStatus::Conflicted));
}

#[test]
fn files_come_out_in_path_order() {
    let mut b = StatusBuilder::new();
    b.apply_index_change(&IndexChange::Addition { location: b"src/main.rs".to_vec() });
    b.apply_worktree_change(&worktree("README.md", Some(WorktreeSummary::Modified), None));
    b.apply_worktree_change(&worktree("Cargo.toml", Some(WorktreeSummary::Added), None));
    assert_eq!(paths(b), vec!["Cargo.toml", "README.md", "src/main.rs"]);
}

#[test]
fn paths_are_ordered_by_component() {
    // Component order puts "a/b" (components "a", "b") before "a.b",
    // although the byte '.' comes before '/'.
    let mut b = StatusBuilder::new();
    b.apply_index_change(&IndexChange::Addition { location: b"a.b".to_vec() });
    b.apply_index_change(&IndexChange::Addition { location: b"a/b".to_vec() });
    assert_eq!(paths(b), vec!["a/b", "a.b"]);
}

#[test]
fn index_and_worktree_changes_merge_into_one_entry() {
    let mut b = StatusBuilder::new();
    b.apply_index_change(&IndexChange::Modification { location: b"lib.rs".to_vec() });
    b.apply_worktree_change(&worktree("lib.rs", Some(WorktreeSummary::Modified), None));
    let files = b.into_status().files_changed;
    assert_eq!(files.len(), 1);
    assert_eq!(files[0].path, "lib.rs");
    assert_eq!(files[0].index_status, Some(FileStatus::Modified));
    assert_eq!(files[0].worktree_status, Some(FileStatus::Modified));
    assert_eq!(files[0].old_path, None);
}

#[test]
fn the_same_path_written_differently_is_one_entry() {
    let mut b = StatusBuilder::new();
    b.apply_worktree_change(&worktree("dir/", Some(WorktreeSummary::Added), None));
    b.apply_index_change(&IndexChange::Deletion { location: b"dir".to_vec() });
    let files = b.into_status().files_changed;
    assert_eq!(files.len(), 1);
    assert_eq!(files[0].path, "dir/");
    assert_eq!(files[0].worktree_status, Some(FileStatus::Untracked));
    assert_eq!(files[0].index_status, Some(FileStatus::Deleted));
}

#[test]
fn renames_and_copies_record_their_source() {
    let mut b = StatusBuilder::new();
    b.apply_index_change(&IndexChange::Rewrite {
        source_location: b"old.rs".to_vec(),
        location: b"new.rs".to_vec(),
        copy: false,
    });
    b.apply_index_change(&IndexChange::Rewrite {
        source_location: b"a.rs".to_vec(),
        location: b"b.rs".to_vec(),
        copy: true,
    });
    let files = b.into_status().files_changed;
    assert_eq!(files.len(), 2);
    assert_eq!(files[0].path, "b.rs");
    assert_eq!(files[0].index_status, Some(FileStatus::Copied));
    assert_eq!(files[0].old_path.as_deref(), Some("a.rs"));
    assert_eq!(files[1].path, "new.rs");
    assert_eq!(files[1].index_status, Some(FileStatus::Renamed));
    assert_eq!(files[1].old_path.as_deref(), Some("old.rs"));
}

#[test]
fn the_first_source_path_stays() {
    let mut b = StatusBuilder::new();
    b.apply_worktree_change(&worktree("x", Some(WorktreeSummary::Renamed), Some("first")));
    b.apply_index_change(&IndexChange::Rewrite {
        source_location: b"second".to_vec(),
        location: b"x".to_vec(),
        copy: false,
    });
    let files = b.into_status().files_changed;
    assert_eq!(files.len(), 1);
    assert_eq!(files[0].old_path.as_deref(), Some("first"));
    assert_eq!(files[0].worktree_status, Some(FileStatus::Renamed));
    assert_eq!(files[0].index_status, Some(FileStatus::Renamed));
}

#[test]
fn a_change_without_summary_is_ignored() {
    let mut b = StatusBuilder::new();
    b.apply_worktree_change(&worktree("ignored.txt", None, None));
    assert!(b.into_status().files_changed.is_empty());
}

#[test]
fn later_statuses_replace_earlier_ones() {
    let mut b = StatusBuilder::new();
    b.apply_worktree_change(&worktree("f", Some(WorktreeSummary::Modified), None));
    b.apply_worktree_change(&worktree("f", Some(WorktreeSummary::Removed), None));
    let files = b.into_status().files_changed;
    assert_eq!(files.len(), 1);
    assert_eq!(files[0].worktree_status, Some(FileStatus::Deleted));
    assert_eq!(files[0].index_status, None);
}

#[test]
fn invalid_utf8_paths_are_decoded_lossily() {
    let mut b = StatusBuilder::new();
    b.apply_index_change(&IndexChange::Addition { location: vec![b'a', 0xff, b'b'] });
    let files = b.into_status().files_changed;
    assert_eq!(files[0].path, "a\u{FFFD}b");
}

#[test]
fn valid_utf8_paths_are_kept() {
    let mut b = StatusBuilder::new();
    b.apply_index_change(&IndexChange::Addition { location: "ünïcode/файл".as_bytes().to_vec() });
    let files = b.into_status().files_changed;
    assert_eq!(files[0].path, "ünïcode/файл");
}

#[test]
fn path_comparison_follows_std_path_order() {
    let pairs = [
        ("a", "b"),
        ("a/b", "a.b"),
        ("/z", "a"),
        ("./a", "a"),
        ("../x", "+x"),
        ("a/b", "a/c"),
        ("a", "a/b"),
        ("Z", "a"),
    ];
    for (x, y) in pairs {
        assert_eq!(compare_paths(x, y), PathOrder::Less, "{x} < {y}");
        assert_eq!(compare_paths(y, x), PathOrder::Greater, "{y} > {x}");
        assert!(std::path::Path::new(x) < std::path::Path::new(y));
    }
}

#[test]
fn path_comparison_ignores_spelling() {
    for (x, y) in [("a//b", "a/b"), ("a/b/", "a/b"), ("a/./b", "a/b"), ("", ""), ("//a", "/a")] {
        assert_eq!(compare_paths(x, y), PathOrder::Same, "{x} == {y}");
        assert_eq!(std::path::Path::new(x), std::path::Path::new(y));
    }
    assert_ne!(compare_paths("./a", "a"), PathOrder::Same);
}

#[test]
fn worktree_and_index_changes_commute() {
    let item = worktree("m.rs", Some(WorktreeSummary::Modified), None);
    let change = IndexChange::Rewrite { source_location: b"l.rs".to_vec(), location: b"m.rs".to_vec(), copy: false };
    let mut first = StatusBuilder::new();
    first.apply_index_change(&IndexChange::Addition { location: b"a.rs".to_vec() });
    first.apply_worktree_change(&item);
    first.apply_index_change(&change);
    let mut second = StatusBuilder::new();
    second.apply_index_change(&IndexChange::Addition { location: b"a.rs".to_vec() });
    second.apply_index_change(&change);
    second.apply_worktree_change(&item);
    let view = |b: StatusBuilder| {
        b.into_status()
            .files_changed
            .into_iter()
            .map(|f| (f.path, f.old_path, f.index_status, f.worktree_status))
            .collect::<Vec<_>>()
    };
    let a = view(first);
    assert_eq!(a, view(second));
    assert_eq!(a[1], ("m.rs".to_string(), Some("l.rs".to_string()), Some(FileStatus::Renamed), Some(FileStatus::Modified)));
}

fn entries(b: StatusBuilder) -> Vec<(String, Option<String>, Option<FileStatus>, Option<FileStatus>)> {
    b.into_status()
        .files_changed
        .into_iter()
        .map(|f| (f.path, f.old_path, f.index_status, f.worktree_status))
        .collect()
}

fn both_orders(
    start: &[IndexChange],
    item: &WorktreeItem,
    change: &IndexChange,
) -> (
    Vec<(String, Option<String>, Option<FileStatus>, Option<FileStatus>)>,
    Vec<(String, Option<String>, Option<FileStatus>, Option<FileStatus>)>,
) {
    let mut first = StatusBuilder::new();
    let mut second = StatusBuilder::new();
    for c in start {
        first.apply_index_change(c);
        second.apply_index_change(c);
    }
    first.apply_worktree_change(item);
    first.apply_index_change(change);
    second.apply_index_change(change);
    second.apply_worktree_change(item);
    (entries(first), entries(second))
}

#[test]
fn changes_to_different_paths_commute() {
    let item = worktree("z.rs", Some(WorktreeSummary::Renamed), Some("y.rs"));
    let change = IndexChange::Rewrite { source_location: b"q.rs".to_vec(), location: b"b.rs".to_vec(), copy: true };
    let start = [IndexChange::Modification { location: b"m.rs".to_vec() }];
    let (a, b) = both_orders(&start, &item, &change);
    assert_eq!(a, b);
    assert_eq!(
        a,
        vec![
            ("b.rs".to_string(), Some("q.rs".to_string()), Some(FileStatus::Copied), None),
            ("m.rs".to_string(), None, Some(FileStatus::Modified), None),
            ("z.rs".to_string(), Some("y.rs".to_string()), None, Some(FileStatus::Renamed)),
        ]
    );
}

#[test]
fn renames_with_one_source_commute() {
    let item = worktree("n.rs", Some(WorktreeSummary::Renamed), Some("o.rs"));
    let change = IndexChange::Rewrite { source_location: b"o.rs".to_vec(), location: b"n.rs".to_vec(), copy: false };
    let (a, b) = both_orders(&[], &item, &change);
    assert_eq!(a, b);
    assert_eq!(
        a,
        vec![("n.rs".to_string(), Some("o.rs".to_string()), Some(FileStatus::Renamed), Some(FileStatus::Renamed))]
    );
}

#[test]
fn spellings_of_a_listed_path_commute() {
    let item = worktree("dir/", Some(WorktreeSummary::Added), None);
    let change = IndexChange::Deletion { location: b"dir".to_vec() };
    let start = [IndexChange::Modification { location: b"dir".to_vec() }];
    let (a, b) = both_orders(&start, &item, &change);
    assert_eq!(a, b);
    assert_eq!(a, vec![("dir".to_string(), None, Some(FileStatus::Deleted), Some(FileStatus::Untracked))]);
}

#[test]
fn a_new_entry_takes_the_first_spelling() {
    let item = worktree("dir/", Some(WorktreeSummary::Added), None);
    let change = IndexChange::Deletion { location: b"dir".to_vec() };
    let (a, b) = both_orders(&[], &item, &change);
    assert_eq!(a[0].0, "dir/");
    assert_eq!(b[0].0, "dir");
    assert_eq!(compare_paths(&a[0].0, &b[0].0), PathOrder::Same);
    assert_eq!(a[0].2, b[0].2);
    assert_eq!(a[0].3, b[0].3);
}

#[test]
fn sources_spelled_differently_stay_the_same_path() {
    let item = worktree("n.rs", Some(WorktreeSummary::Renamed), Some("src//o.rs"));
    let change = IndexChange::Rewrite { source_location: b"src/o.rs".to_vec(), location: b"n.rs".to_vec(), copy: false };
    let (a, b) = both_orders(&[], &item, &change);
    assert_eq!(a.len(), 1);
    assert_eq!(b.len(), 1);
    assert_eq!(a[0].1.as_deref(), Some("src//o.rs"));
    assert_eq!(b[0].1.as_deref(), Some("src/o.rs"));
    assert_eq!(compare_paths(a[0].1.as_deref().unwrap(), b[0].1.as_deref().unwrap()), PathOrder::Same);
    assert_eq!((a[0].2, a[0].3), (b[0].2, b[0].3));
}
