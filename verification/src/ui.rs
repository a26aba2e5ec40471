//! The screen: tabs, a message line, and the changes tab.
pub mod changes;
pub mod common;
pub mod diffs;
pub mod file_display;
pub mod file_list;

use vstd::prelude::*;
use crate::git::opt_text;
use crate::input_config::InputAction;
use crate::state::State;
use crate::ui::changes::{changes_drawn_within, loaded_files, Changes, ChangesView, Focus};
use crate::ui::common::{comes_before, lies_within, parts_in_order, split_area, widgets_view, Area, LayoutConstraint, LayoutDirection, Widget, WidgetView};
use crate::ui::file_list::{after_action, law_one_step, law_only_moves_handled, FileListView};

verus! {

/// The tabs of the screen.
#[derive(Clone, Copy, Debug, PartialEq, Eq, Structural)]
pub enum Tab {
    /// [1] Repository summary, current HEAD, status counts, and key metadata.
    Overview,
    /// [2] Worktree/index changes, file list, and diffs.
    Changes,
    /// [3] Branches, remotes, tags, stashes, worktrees, and submodules.
    Refs,
    /// [4] Commit history, reflog, and commit details.
    Log,
}

/// The model of the screen.
pub struct UiView {
    pub tab: Tab,
    pub message: Option<Seq<char>>,
    pub changes: ChangesView,
}

/// The screen: the tab shown, the message line, and the changes tab.
#[derive(Clone, Debug)]
pub struct Ui {
    tab: Tab,
    message: Option<String>,
    changes: Changes,
}

impl View for Ui {
    type V = UiView;

    closed spec fn view(&self) -> UiView {
        UiView { tab: self.tab, message: opt_text(self.message), changes: self.changes@ }
    }
}

/// The screen at start: the changes tab, no message, the file list focused
/// with nothing selected.
pub open spec fn default_ui() -> UiView {
    UiView {
        tab: Tab::Changes,
        message: None,
        changes: ChangesView {
            focus: Focus::FileList,
            list: FileListView { selected: None, offset: 0 },
        },
    }
}

impl Default for Ui {
    fn default() -> (r: Self)
        ensures
            r@ == default_ui(),
    {
        Ui { tab: Tab::Changes, message: None, changes: Changes::default() }
    }
}

/// Drawing the screen over `state`, with `content_area` for the tab shown
/// and `message_area` for the message line, took it from `before` to
/// `after` and gave the widgets `ws`: the changes tab's widgets drawn in the
/// content area when that tab is shown (no widget for the other tabs), then
/// the message, where there is one, unframed in the message line.
pub open spec fn ui_drawn(
    before: UiView,
    after: UiView,
    ws: Seq<WidgetView>,
    content_area: Area,
    message_area: Area,
    state: State,
) -> bool {
    let k: int = if before.tab == Tab::Changes { 2 } else { 0 };
    &&& after.tab == before.tab
    &&& after.message == before.message
    &&& ws.len() == k + if before.message is Some { 1int } else { 0int }
    &&& if before.tab == Tab::Changes {
        changes_drawn_within(before.changes, after.changes, ws.subrange(0, 2), content_area, loaded_files(state))
    } else {
        after.changes == before.changes
    }
    &&& before.message matches Some(m) ==> ws[k] == (WidgetView::Paragraph { area: message_area, text: m, frame: None })
}

/// Drawing the screen in `area` over `state` went as `ui_drawn` says, with
/// the content on top of the message line, both parts of `area`.
pub open spec fn ui_drawn_within(before: UiView, after: UiView, ws: Seq<WidgetView>, area: Area, state: State) -> bool {
    exists|content_area: Area, message_area: Area|
        #![trigger ui_drawn(before, after, ws, content_area, message_area, state)]
        {
            &&& lies_within(content_area, area, LayoutDirection::Vertical)
            &&& lies_within(message_area, area, LayoutDirection::Vertical)
            &&& comes_before(content_area, message_area, LayoutDirection::Vertical)
            &&& ui_drawn(before, after, ws, content_area, message_area, state)
        }
}

/// The screen after an action, and whether it was handled: the changes tab
/// passes it to its file list; the other tabs handle nothing.
pub open spec fn ui_after_action(u: UiView, action: InputAction) -> (UiView, bool) {
    if u.tab == Tab::Changes {
        let (list, handled) = after_action(u.changes.list, action);
        (UiView { changes: ChangesView { focus: u.changes.focus, list }, ..u }, handled)
    } else {
        (u, false)
    }
}

impl Ui {
    /// Gives the widgets that draw the screen in `area`: it is split down,
    /// the content taking the rest and the message line one row, and the
    /// screen is drawn in the two parts.
    pub fn draw(&mut self, area: Area, state: &State) -> (r: Vec<Widget>)
        ensures
            ui_drawn_within(old(self)@, final(self)@, widgets_view(r@), area, *state),
    {
        let constraints = vec![LayoutConstraint::Min(0), LayoutConstraint::Length(1)];
        let parts = split_area(area, LayoutDirection::Vertical, constraints.as_slice());
        proof {
            assert(parts_in_order(parts@, area, LayoutDirection::Vertical));
            assert(lies_within(parts@[0], area, LayoutDirection::Vertical));
            assert(lies_within(parts@[1], area, LayoutDirection::Vertical));
            assert(comes_before(parts@[0], parts@[1], LayoutDirection::Vertical));
        }
        self.draw_in_areas(parts[0], parts[1], state)
    }

    /// Gives the widgets that draw the screen with the shown tab in
    /// `content_area` and the message in `message_area`.
    pub fn draw_in_areas(&mut self, content_area: Area, message_area: Area, state: &State) -> (r: Vec<Widget>)
        ensures
            ui_drawn(old(self)@, final(self)@, widgets_view(r@), content_area, message_area, *state),
    {
        let mut r: Vec<Widget> = match self.tab {
            Tab::Changes => self.changes.draw(content_area, state),
            Tab::Refs => Vec::new(),
            Tab::Log => Vec::new(),
            Tab::Overview => Vec::new(),
        };
        let ghost drawn = widgets_view(r@);
        let ghost before = old(self)@;
        match &self.message {
            Some(message) => {
                r.push(Widget::Paragraph { area: message_area, text: message.clone(), frame: None });
                assert(widgets_view(r@).subrange(0, drawn.len() as int) =~= drawn);
            },
            None => {},
        }
        proof {
            if before.tab == Tab::Changes {
                assert(widgets_view(r@).subrange(0, 2) =~= drawn);
            }
        }
        r
    }

    /// Passes the action to the tab shown; returns whether it was handled.
    /// Only the changes tab handles actions.
    pub fn handle_action(&mut self, action: InputAction) -> (handled: bool)
        ensures
            (final(self)@, handled) == ui_after_action(old(self)@, action),
    {
        match self.tab {
            Tab::Changes => self.changes.handle_action(action),
            Tab::Refs | Tab::Log | Tab::Overview => false,
        }
    }

    /// Shows `message` in the message line.
    pub fn set_message(&mut self, message: String)
        ensures
            final(self)@ == (UiView { message: Some(message@), ..old(self)@ }),
    {
        self.message = Some(message);
    }

    /// The message shown.
    pub fn message(&self) -> (r: Option<&str>)
        ensures
            match r {
                Some(m) => self@.message == Some(m@),
                None => self@.message is None,
            },
    {
        match &self.message {
            Some(m) => Some(m.as_str()),
            None => None,
        }
    }

    /// Records the selection and scroll position that drawing the file
    /// list left.
    pub fn file_list_rendered(&mut self, selected: Option<usize>, offset: usize)
        ensures
            final(self)@ == (UiView {
                changes: ChangesView {
                    focus: old(self)@.changes.focus,
                    list: FileListView { selected, offset },
                },
                ..old(self)@
            }),
    {
        self.changes.file_list_rendered(selected, offset);
    }
}

// ---------------------------------------------------------------------------
// Laws of the screen's actions
// ---------------------------------------------------------------------------

/// On the changes tab an action goes once to the file list: the screen after
/// it has the list after that one action, with the focus, tab and message
/// kept, and the screen handles it exactly when the list does. So one down
/// moves the selection from line `i` to `i + 1` (from the first line where
/// none was), one up from `i` to `i - 1`, stopping at the first line, and
/// any other action leaves the screen as it is, unhandled. The other tabs
/// handle no action and leave the screen as it is.
pub proof fn law_screen_actions(u: UiView, action: InputAction)
    ensures
        u.tab == Tab::Changes ==> ui_after_action(u, action) == (
            UiView {
                tab: u.tab,
                message: u.message,
                changes: ChangesView { focus: u.changes.focus, list: after_action(u.changes.list, action).0 },
            },
            after_action(u.changes.list, action).1,
        ),
        u.tab != Tab::Changes ==> ui_after_action(u, action) == (u, false),
        action != InputAction::Up && action != InputAction::Down ==> ui_after_action(u, action) == (u, false),
        ({
            let (after, handled) = ui_after_action(u, action);
            let sel = u.changes.list.selected;
            u.tab == Tab::Changes && action == InputAction::Down ==> {
                &&& handled
                &&& sel is None ==> after.changes.list.selected == Some(1usize)
                &&& (sel matches Some(i) && i < usize::MAX) ==> after.changes.list.selected == Some((sel->0 + 1) as usize)
            }
        }),
        ({
            let (after, handled) = ui_after_action(u, action);
            let sel = u.changes.list.selected;
            u.tab == Tab::Changes && action == InputAction::Up ==> {
                &&& handled
                &&& (sel is None || sel == Some(0usize)) ==> after.changes.list.selected == Some(0usize)
                &&& (sel matches Some(i) && i > 0) ==> after.changes.list.selected == Some((sel->0 - 1) as usize)
            }
        }),
{
    law_one_step(u.changes.list);
    law_only_moves_handled(u.changes.list, action);
}

} // verus!
