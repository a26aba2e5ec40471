//! The changes tab: the file list beside the diff pane.
use vstd::prelude::*;
use crate::git::{files_view, File, FileView};
use crate::input_config::InputAction;
use crate::state::{Loadable, State};
use crate::ui::common::{comes_before, lies_within, parts_in_order, split_area, widgets_view, Area, LayoutConstraint, LayoutDirection, Widget, WidgetView};
use crate::ui::diffs::{diff_widget, DiffView};
use crate::ui::file_list::{after_action, after_sync, is_file_list_widget, FileList, FileListView};

verus! {

/// The pane of the changes tab that has the focus.
#[derive(Clone, Copy, Debug, PartialEq, Eq, Structural)]
pub enum Focus {
    FileList,
    Diff,
}

/// The model of the changes tab.
pub struct ChangesView {
    pub focus: Focus,
    pub list: FileListView,
}

/// The changes tab.
#[derive(Clone, Debug)]
pub struct Changes {
    focus: Focus,
    file_list: FileList,
    diff_view: DiffView,
}

impl View for Changes {
    type V = ChangesView;

    closed spec fn view(&self) -> ChangesView {
        ChangesView { focus: self.focus, list: self.file_list@ }
    }
}

impl Default for Changes {
    fn default() -> (r: Self)
        ensures
            r@ == (ChangesView { focus: Focus::FileList, list: FileListView { selected: None, offset: 0 } }),
    {
        Changes { focus: Focus::FileList, file_list: FileList::default(), diff_view: DiffView::default() }
    }
}

/// The files of the state: the loaded status's files, or none.
pub open spec fn loaded_files(state: State) -> Seq<FileView> {
    match state.status {
        Loadable::Loaded(s) => s@,
        _ => Seq::empty(),
    }
}

/// Drawing the changes tab over `files`, with `list_area` for the file list
/// and `diff_area` for the diff pane, took it from `before` to `after` and
/// gave the widgets `ws`: the list is fitted to the files, the file list is
/// drawn in its area and the diff pane in its own, each framed as focused
/// where it has the focus.
pub open spec fn changes_drawn(
    before: ChangesView,
    after: ChangesView,
    ws: Seq<WidgetView>,
    list_area: Area,
    diff_area: Area,
    files: Seq<FileView>,
) -> bool {
    &&& after.focus == before.focus
    &&& after.list == after_sync(before.list, files.len() as usize)
    &&& ws.len() == 2
    &&& is_file_list_widget(ws[0], list_area, files, before.focus == Focus::FileList, after.list)
    &&& ws[1] == diff_widget(diff_area, before.focus == Focus::Diff)
}

/// Drawing the changes tab in `area` over `files` took it from `before` to
/// `after` and gave the widgets `ws`, with the file list in a part of `area`
/// to the left of the diff pane's part.
pub open spec fn changes_drawn_within(
    before: ChangesView,
    after: ChangesView,
    ws: Seq<WidgetView>,
    area: Area,
    files: Seq<FileView>,
) -> bool {
    exists|list_area: Area, diff_area: Area|
        #![trigger changes_drawn(before, after, ws, list_area, diff_area, files)]
        {
            &&& lies_within(list_area, area, LayoutDirection::Horizontal)
            &&& lies_within(diff_area, area, LayoutDirection::Horizontal)
            &&& comes_before(list_area, diff_area, LayoutDirection::Horizontal)
            &&& changes_drawn(before, after, ws, list_area, diff_area, files)
        }
}

impl Changes {
    /// Gives the widgets that draw the tab in `area`: it is split across,
    /// 30% for the file list and 70% for the diff pane, and the tab is drawn
    /// in the two parts.
    pub fn draw(&mut self, area: Area, state: &State) -> (r: Vec<Widget>)
        ensures
            changes_drawn_within(old(self)@, final(self)@, widgets_view(r@), area, loaded_files(*state)),
    {
        let constraints = vec![LayoutConstraint::Percentage(30), LayoutConstraint::Percentage(70)];
        let parts = split_area(area, LayoutDirection::Horizontal, constraints.as_slice());
        proof {
            assert(parts_in_order(parts@, area, LayoutDirection::Horizontal));
            assert(lies_within(parts@[0], area, LayoutDirection::Horizontal));
            assert(lies_within(parts@[1], area, LayoutDirection::Horizontal));
            assert(comes_before(parts@[0], parts@[1], LayoutDirection::Horizontal));
        }
        self.draw_in_areas(parts[0], parts[1], state)
    }

    /// Gives the widgets that draw the tab with the file list in
    /// `list_area` and the diff pane in `diff_area`.
    pub fn draw_in_areas(&mut self, list_area: Area, diff_area: Area, state: &State) -> (r: Vec<Widget>)
        ensures
            changes_drawn(old(self)@, final(self)@, widgets_view(r@), list_area, diff_area, loaded_files(*state)),
    {
        let empty: Vec<File> = Vec::new();
        let files: &[File] = match &state.status {
            Loadable::Loaded(s) => s.files_changed.as_slice(),
            _ => empty.as_slice(),
        };
        assert(files_view(files@) =~= loaded_files(*state));
        let list = self.file_list.draw(list_area, files, self.focus == Focus::FileList);
        let diff = self.diff_view.draw(diff_area, self.focus == Focus::Diff);
        let mut r: Vec<Widget> = Vec::new();
        r.push(list);
        r.push(diff);
        assert(widgets_view(r@)[0] == list@);
        assert(widgets_view(r@)[1] == diff@);
        r
    }

    /// Passes the action to the file list; returns whether it was handled.
    pub fn handle_action(&mut self, action: InputAction) -> (handled: bool)
        ensures
            final(self)@.focus == old(self)@.focus,
            (final(self)@.list, handled) == after_action(old(self)@.list, action),
    {
        self.file_list.handle_action(action)
    }

    /// Records the selection and scroll position that drawing the file
    /// list left.
    pub fn file_list_rendered(&mut self, selected: Option<usize>, offset: usize)
        ensures
            final(self)@ == (ChangesView { focus: old(self)@.focus, list: FileListView { selected, offset } }),
    {
        self.file_list.set_view_state(selected, offset);
    }
}

} // verus!
