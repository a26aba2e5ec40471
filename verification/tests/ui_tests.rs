use gitui::git::{File, FileStatus};
use gitui::input_config::InputAction;
use gitui::repo_state;
use gitui::repo_state::FileStatus as S;
use gitui::text::decimal_text;
use gitui::ui::common::{block, Area, Color, StyledText, Widget};
use gitui::ui::diffs::DiffView;
use gitui::ui::file_display::{
    file_change_line, file_change_line_with_icon, hex_color, status_color, status_short_label, status_span,
};
use gitui::ui::file_list::FileList;

fn file(path: &str, old: Option<&str>, index: Option<FileStatus>, worktree: Option<FileStatus>) -> File {
    File { path: path.to_string(), old_path: old.map(|s| s.to_string()), index_status: index, worktree_status: worktree }
}

fn span(content: &str, fg: Option<Color>, bold: bool) -> (String, Option<Color>, bool) {
    (content.to_string(), fg, bold)
}

fn spans(v: &[StyledText]) -> Vec<(String, Option<Color>, bool)> {
    v.iter().map(|s| (s.content.clone(), s.fg, s.bold)).collect()
}

#[test]
fn status_labels_and_colors() {
    let cases = [
        (FileStatus::Added, 'A', Color::Green),
        (FileStatus::Modified, 'M', Color::Yellow),
        (FileStatus::Deleted, 'D', Color::Red),
        (FileStatus::Renamed, 'R', Color::Cyan),
        (FileStatus::Copied, 'C', Color::Cyan),
        (FileStatus::TypeChanged, 'T', Color::Magenta),
        (FileStatus::Untracked, '?', Color::Blue),
        (FileStatus::Conflicted, 'U', Color::Red),
    ];
    for (status, label, color) in cases {
        assert_eq!(status_short_label(status), label);
        assert_eq!(status_color(status), color);
        let s = status_span(Some(status));
        assert_eq!((s.content, s.fg, s.bold), (label.to_string(), Some(color), true));
    }
    let blank = status_span(None);
    assert_eq!((blank.content, blank.fg, blank.bold), (" ".to_string(), None, false));
}

#[test]
fn repo_state_status_names() {
    let cases = [
        (S::Added, "added"),
        (S::Modified, "modified"),
        (S::Deleted, "deleted"),
        (S::Renamed, "renamed"),
        (S::Copied, "copied"),
        (S::TypeChanged, "type changed"),
        (S::Untracked, "untracked"),
        (S::Conflicted, "conflicted"),
    ];
    for (status, name) in cases {
        assert_eq!(status.label(), name);
        assert_eq!(status.to_string(), name);
    }
    assert!(repo_state::RepoState::default().file_changes.is_empty());
}

#[test]
fn hex_colors_parse() {
    assert_eq!(hex_color("#89e051"), Some(Color::Rgb(0x89, 0xe0, 0x51)));
    assert_eq!(hex_color("7E8EA8"), Some(Color::Rgb(0x7e, 0x8e, 0xa8)));
    assert_eq!(hex_color("#000000"), Some(Color::Rgb(0, 0, 0)));
    assert_eq!(hex_color("#ffffff"), Some(Color::Rgb(255, 255, 255)));
    // `from_str_radix` takes a leading plus sign.
    assert_eq!(hex_color("#+f+f+f"), Some(Color::Rgb(15, 15, 15)));
    assert_eq!(hex_color("#12345"), None);
    assert_eq!(hex_color("#1234567"), None);
    assert_eq!(hex_color("##123456"), None);
    assert_eq!(hex_color("#zz0000"), None);
    assert_eq!(hex_color("#-10000"), None);
    assert_eq!(hex_color(""), None);
    assert_eq!(hex_color("éé12"), None);
}

#[test]
fn decimal_text_writes_numbers() {
    for n in [0usize, 7, 10, 42, 1000, 98765, usize::MAX] {
        assert_eq!(decimal_text(n), n.to_string());
    }
}

#[test]
fn block_colors_follow_focus() {
    let b = block("Files", true);
    assert_eq!((b.title.as_str(), b.border), ("Files", Color::Green));
    let b = block("Diff", false);
    assert_eq!((b.title.as_str(), b.border), ("Diff", Color::DarkGray));
}

#[test]
fn change_lines_show_statuses_icon_and_paths() {
    let f = file("src/new.rs", Some("src/old.rs"), Some(FileStatus::Renamed), None);
    let line = file_change_line_with_icon(&f, 'x', "#89e051");
    assert_eq!(
        spans(&line.spans),
        vec![
            span("R", Some(Color::Cyan), true),
            span(" ", None, false),
            span(" ", None, false),
            span("x", Some(Color::Rgb(0x89, 0xe0, 0x51)), false),
            span(" ", None, false),
            span("src/new.rs", None, false),
            span(" ", None, false),
            span("from", Some(Color::DarkGray), false),
            span(" ", None, false),
            span("src/old.rs", Some(Color::DarkGray), false),
        ]
    );
    let g = file("a.txt", None, None, Some(FileStatus::Untracked));
    let line = file_change_line_with_icon(&g, 'y', "zzzzzz");
    assert_eq!(line.spans.len(), 6);
    assert_eq!(spans(&line.spans)[3], span("y", Some(Color::Gray), false));
    assert_eq!(spans(&line.spans)[1], span("?", Some(Color::Blue), true));
}

#[test]
fn change_lines_use_the_icon_table() {
    let f = file("Cargo.toml", None, Some(FileStatus::Modified), Some(FileStatus::Modified));
    let line = file_change_line(&f);
    let icon = devicons::FileIcon::from("Cargo.toml");
    assert_eq!(line.spans.len(), 6);
    assert_eq!(line.spans[3].content, icon.icon.to_string());
    assert_eq!(line.spans[3].fg, hex_color(icon.color));
    assert!(matches!(line.spans[3].fg, Some(Color::Rgb(_, _, _))));
    assert_eq!(line.spans[5].content, "Cargo.toml");
}

#[test]
fn file_list_selection_stays_in_range() {
    let mut list = FileList::default();
    assert_eq!((list.selected(), list.offset()), (None, 0));
    list.sync(3);
    assert_eq!(list.selected(), Some(0));
    list.set_view_state(Some(7), 4);
    list.sync(3);
    assert_eq!((list.selected(), list.offset()), (Some(2), 4));
    list.sync(0);
    assert_eq!((list.selected(), list.offset()), (None, 0));
}

#[test]
fn file_list_moves_with_up_and_down() {
    let mut list = FileList::default();
    assert!(list.handle_action(InputAction::Up));
    assert_eq!(list.selected(), Some(0));
    assert!(list.handle_action(InputAction::Down));
    assert!(list.handle_action(InputAction::Down));
    assert_eq!(list.selected(), Some(2));
    assert!(list.handle_action(InputAction::Up));
    assert_eq!(list.selected(), Some(1));
    assert!(!list.handle_action(InputAction::Left));
    assert!(!list.handle_action(InputAction::Select));
    assert_eq!(list.selected(), Some(1));
    list.set_view_state(Some(usize::MAX), 9);
    assert!(list.handle_action(InputAction::Down));
    assert_eq!((list.selected(), list.offset()), (Some(usize::MAX), 9));
    list.select(None);
    assert_eq!((list.selected(), list.offset()), (None, 0));
}

#[test]
fn file_list_draws_a_placeholder_without_files() {
    let mut list = FileList::default();
    let area = Area { x: 0, y: 0, width: 30, height: 10 };
    match list.draw(area, &[], true) {
        Widget::List { area: a, items, block, highlight } => {
            assert_eq!(a, area);
            assert_eq!(items.len(), 1);
            assert_eq!(spans(&items[0].spans), vec![span("No changes", None, false)]);
            assert_eq!((block.title.as_str(), block.border), ("Files", Color::Green));
            assert!(highlight.is_none());
        }
        other => panic!("unexpected {other:?}"),
    }
    assert_eq!(list.selected(), None);
}

#[test]
fn file_list_draws_one_line_per_file() {
    let mut list = FileList::default();
    let files = vec![
        file("a.rs", None, Some(FileStatus::Added), None),
        file("b.rs", None, None, Some(FileStatus::Modified)),
    ];
    let area = Area { x: 1, y: 2, width: 30, height: 10 };
    match list.draw(area, &files, false) {
        Widget::List { items, block, highlight, .. } => {
            assert_eq!(items.len(), 2);
            assert_eq!(items[0].spans[5].content, "a.rs");
            assert_eq!(items[1].spans[5].content, "b.rs");
            assert_eq!(block.border, Color::DarkGray);
            let h = highlight.expect("a selectable list");
            assert_eq!((h.background, h.symbol.as_str(), h.selected, h.offset), (Color::DarkGray, "> ", Some(0), 0));
        }
        other => panic!("unexpected {other:?}"),
    }
}

#[test]
fn diff_pane_shows_its_placeholder() {
    let area = Area { x: 5, y: 0, width: 10, height: 3 };
    match DiffView.draw(area, true) {
        Widget::Paragraph { area: a, text, frame } => {
            assert_eq!(a, area);
            assert_eq!(text, "TODO diff");
            let f = frame.expect("a frame");
            assert_eq!((f.title.as_str(), f.border), ("Diff", Color::Green));
        }
        other => panic!("unexpected {other:?}"),
    }
}
