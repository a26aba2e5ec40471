use gitui::app::App;
use gitui::git::{File, FileStatus, Status};
use gitui::gitui::Gitui;
use gitui::input_config::{InputAction, KeyCode, KeyEvent, KeyEventKind, KeyModifiers};
use gitui::state::Loadable;
use gitui::state::State;
use gitui::ui::changes::Changes;
use gitui::ui::common::{Area, Widget};
use gitui::ui::Ui;
use gitui::worker::{GitEvent, GitOperation};

fn key(code: KeyCode, kind: KeyEventKind) -> KeyEvent {
    KeyEvent { code, modifiers: KeyModifiers::none(), kind }
}

fn status_of(paths: &[&str]) -> Status {
    Status {
        files_changed: paths
            .iter()
            .map(|p| File { path: p.to_string(), old_path: None, index_status: None, worktree_status: Some(FileStatus::Modified) })
            .collect(),
    }
}

#[test]
fn a_fresh_app_has_nothing_loaded() {
    let app = App::init();
    assert!(matches!(app.state.status, Loadable::NotRequested));
    assert!(!app.quit);
    assert_eq!(app.ui.message(), None);
}

#[test]
fn a_loaded_status_is_counted() {
    let mut app = App::init();
    app.handle_git_event(GitEvent::Status(status_of(&["a", "b", "c"])));
    assert_eq!(app.ui.message(), Some("3 changed"));
    match &app.state.status {
        Loadable::Loaded(s) => assert_eq!(s.files_changed.len(), 3),
        other => panic!("unexpected {other:?}"),
    }
}

#[test]
fn a_failure_is_reported() {
    let mut app = App::init();
    app.handle_git_event(GitEvent::Failed { operation: GitOperation::Status, error: "not a repository".to_string() });
    assert_eq!(app.ui.message(), Some("git error: not a repository"));
    assert!(matches!(&app.state.status, Loadable::Failed(e) if e == "not a repository"));
}

#[test]
fn q_quits() {
    let mut app = App::init();
    app.handle_key(key(KeyCode::Char('q'), KeyEventKind::Press));
    assert!(app.quit);
}

#[test]
fn only_presses_count() {
    let mut app = App::init();
    app.handle_key(key(KeyCode::Char('q'), KeyEventKind::Release));
    app.handle_key(key(KeyCode::Char('x'), KeyEventKind::Repeat));
    assert!(!app.quit);
    assert_eq!(app.ui.message(), None);
}

#[test]
fn unmapped_and_unhandled_keys_are_reported() {
    let mut app = App::init();
    app.handle_key(key(KeyCode::Char('x'), KeyEventKind::Press));
    assert_eq!(app.ui.message(), Some("unmapped key"));
    app.handle_key(key(KeyCode::Left, KeyEventKind::Press));
    assert_eq!(app.ui.message(), Some("invalid action"));
    app.handle_action(InputAction::Select);
    assert_eq!(app.ui.message(), Some("invalid action"));
}

#[test]
fn drawing_lays_out_the_screen() {
    let mut app = App::init();
    app.handle_git_event(GitEvent::Status(status_of(&["x.rs", "y.rs"])));
    app.handle_key(key(KeyCode::Char('j'), KeyEventKind::Press));
    app.handle_key(key(KeyCode::Char('j'), KeyEventKind::Press));
    let widgets = app.draw(Area { x: 0, y: 0, width: 100, height: 20 });
    assert_eq!(widgets.len(), 3);
    match &widgets[0] {
        Widget::List { area, items, highlight, .. } => {
            assert_eq!(*area, Area { x: 0, y: 0, width: 30, height: 19 });
            assert_eq!(items.len(), 2);
            // The selection was fitted to the two files.
            assert_eq!(highlight.as_ref().map(|h| h.selected), Some(Some(1)));
        }
        other => panic!("unexpected {other:?}"),
    }
    match &widgets[1] {
        Widget::Paragraph { area, .. } => assert_eq!(*area, Area { x: 30, y: 0, width: 70, height: 19 }),
        other => panic!("unexpected {other:?}"),
    }
    match &widgets[2] {
        Widget::Paragraph { area, text, frame } => {
            assert_eq!(*area, Area { x: 0, y: 19, width: 100, height: 1 });
            assert_eq!(text, "2 changed");
            assert!(frame.is_none());
        }
        other => panic!("unexpected {other:?}"),
    }
}

#[test]
fn gitui_handles_actions_like_the_app() {
    let mut g = Gitui::init();
    assert!(g.repo_state.file_changes.is_empty());
    g.handle_key(key(KeyCode::Esc, KeyEventKind::Press));
    assert_eq!(g.ui.message(), Some("invalid action"));
    g.handle_action(InputAction::Down);
    assert_eq!(g.ui.message(), Some("invalid action"));
    g.handle_key(key(KeyCode::Char('q'), KeyEventKind::Press));
    assert!(g.quit);
}

#[test]
fn panes_are_drawn_in_the_areas_given() {
    let state = State { status: Loadable::Loaded(status_of(&["a.rs"])) };
    let list_area = Area { x: 2, y: 3, width: 10, height: 5 };
    let diff_area = Area { x: 12, y: 3, width: 20, height: 5 };
    let mut changes = Changes::default();
    let widgets = changes.draw_in_areas(list_area, diff_area, &state);
    assert_eq!(widgets.len(), 2);
    match &widgets[0] {
        Widget::List { area, items, .. } => {
            assert_eq!(*area, list_area);
            assert_eq!(items.len(), 1);
        }
        other => panic!("unexpected {other:?}"),
    }
    match &widgets[1] {
        Widget::Paragraph { area, .. } => assert_eq!(*area, diff_area),
        other => panic!("unexpected {other:?}"),
    }
}

#[test]
fn the_message_is_drawn_in_the_area_given() {
    let state = State { status: Loadable::Loaded(status_of(&[])) };
    let mut ui = Ui::default();
    ui.set_message("hello".to_string());
    let message_area = Area { x: 0, y: 9, width: 40, height: 1 };
    let widgets = ui.draw_in_areas(Area { x: 0, y: 0, width: 40, height: 9 }, message_area, &state);
    assert_eq!(widgets.len(), 3);
    match &widgets[2] {
        Widget::Paragraph { area, text, frame } => {
            assert_eq!(*area, message_area);
            assert_eq!(text, "hello");
            assert!(frame.is_none());
        }
        other => panic!("unexpected {other:?}"),
    }
}

fn widget_area(w: &Widget) -> Area {
    match w {
        Widget::Paragraph { area, .. } => *area,
        Widget::List { area, .. } => *area,
    }
}

#[test]
fn the_file_list_stays_left_of_the_diff_pane() {
    let state = State { status: Loadable::Loaded(status_of(&["a.rs"])) };
    for width in 0u16..=41 {
        let area = Area { x: 3, y: 1, width, height: 7 };
        let mut changes = Changes::default();
        let widgets = changes.draw(area, &state);
        let list = widget_area(&widgets[0]);
        let diff = widget_area(&widgets[1]);
        for part in [list, diff] {
            assert_eq!((part.y, part.height), (area.y, area.height));
            assert!(area.x <= part.x && part.x + part.width <= area.x + area.width);
        }
        assert!(list.x + list.width <= diff.x);
    }
}

#[test]
fn the_message_line_stays_below_the_content() {
    let state = State { status: Loadable::Loaded(status_of(&["a.rs"])) };
    for height in 0u16..=12 {
        let area = Area { x: 0, y: 2, width: 30, height };
        let mut ui = Ui::default();
        ui.set_message("note".to_string());
        let widgets = ui.draw(area, &state);
        let list = widget_area(&widgets[0]);
        let message = widget_area(&widgets[2]);
        assert_eq!((message.x, message.width), (area.x, area.width));
        assert!(area.y <= list.y && list.y + list.height <= message.y);
        assert!(message.y + message.height <= area.y + area.height);
    }
}
