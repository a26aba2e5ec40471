//! The list of changed files and its selection.
use vstd::prelude::*;
use crate::git::{files_view, File, FileView};
use crate::input_config::InputAction;
use crate::ui::common::{
    block, border_color, lines_view, raw, Area, Color, Highlight, HighlightView, StyledText, TextLine, Widget,
    WidgetView,
};
use crate::ui::file_display::{file_change_line, is_change_line};

verus! {

/// The model of the file list: the selected line and the first line shown.
pub struct FileListView {
    pub selected: Option<usize>,
    pub offset: usize,
}

/// The file list: which line is selected and which line is shown first.
#[derive(Clone, Debug)]
pub struct FileList {
    selected: Option<usize>,
    offset: usize,
}

impl View for FileList {
    type V = FileListView;

    closed spec fn view(&self) -> FileListView {
        FileListView { selected: self.selected, offset: self.offset }
    }
}

impl Default for FileList {
    fn default() -> (r: Self)
        ensures
            r@ == (FileListView { selected: None, offset: 0 }),
    {
        FileList { selected: None, offset: 0 }
    }
}

/// The list after `index` is selected; selecting nothing also scrolls back
/// to the top.
pub open spec fn after_select(l: FileListView, index: Option<usize>) -> FileListView {
    FileListView { selected: index, offset: if index is None { 0 } else { l.offset } }
}

/// The list after it is fitted to `count` files: nothing is selected when
/// there are none; otherwise the selection (the first line where there is
/// none) is kept within the list.
pub open spec fn after_sync(l: FileListView, count: usize) -> FileListView {
    if count == 0 {
        after_select(l, None)
    } else {
        let s = match l.selected {
            Some(i) => i,
            None => 0,
        };
        after_select(l, Some(if s < count - 1 { s } else { (count - 1) as usize }))
    }
}

/// The list after an action, and whether the list handles the action: up
/// and down move the selection (from the first line where there is none),
/// stopping at the ends of the index range.
pub open spec fn after_action(l: FileListView, action: InputAction) -> (FileListView, bool) {
    let s = match l.selected {
        Some(i) => i,
        None => 0,
    };
    match action {
        InputAction::Up => (after_select(l, Some(if s == 0 { 0 } else { (s - 1) as usize })), true),
        InputAction::Down => (after_select(l, Some(if s == usize::MAX { s } else { (s + 1) as usize })), true),
        _ => (l, false),
    }
}

/// The title of the file list's frame.
pub open spec fn files_title() -> Seq<char> {
    seq!['F', 'i', 'l', 'e', 's']
}

/// The line shown when there are no changes.
pub open spec fn no_changes_line() -> Seq<char> {
    seq!['N', 'o', ' ', 'c', 'h', 'a', 'n', 'g', 'e', 's']
}

/// The widget `w` draws the list `l` of `files` in `area`: a framed list
/// titled "Files", holding a line "No changes" where there are no files,
/// and otherwise the line of each file (with the icon its path has), the
/// selected line on a dark gray background after "> ".
pub open spec fn is_file_list_widget(w: WidgetView, area: Area, files: Seq<FileView>, focused: bool, l: FileListView) -> bool {
    if files.len() == 0 {
        w == WidgetView::List {
            area,
            items: seq![seq![raw(no_changes_line())]],
            block: (files_title(), border_color(focused)),
            highlight: None,
        }
    } else {
        &&& w matches WidgetView::List { area: a, items, block, highlight }
        &&& a == area
        &&& block == (files_title(), border_color(focused))
        &&& highlight == Some(HighlightView {
            background: Color::DarkGray,
            symbol: seq!['>', ' '],
            selected: l.selected,
            offset: l.offset,
        })
        &&& items.len() == files.len()
        &&& forall|i: int| 0 <= i < files.len() ==> is_change_line(#[trigger] items[i], files[i])
    }
}

impl FileList {
    /// The selected line.
    pub fn selected(&self) -> (r: Option<usize>)
        ensures
            r == self@.selected,
    {
        self.selected
    }

    /// The first line shown.
    pub fn offset(&self) -> (r: usize)
        ensures
            r == self@.offset,
    {
        self.offset
    }

    /// Selects the line `index`, or nothing.
    pub fn select(&mut self, index: Option<usize>)
        ensures
            final(self)@ == after_select(old(self)@, index),
    {
        self.selected = index;
        if index.is_none() {
            self.offset = 0;
        }
    }

    /// Records the selection and scroll position that drawing left.
    pub fn set_view_state(&mut self, selected: Option<usize>, offset: usize)
        ensures
            final(self)@ == (FileListView { selected, offset }),
    {
        self.selected = selected;
        self.offset = offset;
    }

    /// Fits the selection to a list of `file_count` files.
    pub fn sync(&mut self, file_count: usize)
        ensures
            final(self)@ == after_sync(old(self)@, file_count),
    {
        if file_count == 0 {
            self.select(None);
            return;
        }
        let current = match self.selected {
            Some(i) => i,
            None => 0,
        };
        let selected = if current < file_count - 1 {
            current
        } else {
            file_count - 1
        };
        self.select(Some(selected));
    }

    /// Moves the selection for up and down; returns whether the action was
    /// handled.
    pub fn handle_action(&mut self, action: InputAction) -> (handled: bool)
        ensures
            (final(self)@, handled) == after_action(old(self)@, action),
    {
        let current = match self.selected {
            Some(i) => i,
            None => 0,
        };
        match action {
            InputAction::Up => {
                self.select(Some(current.saturating_sub(1)));
                true
            },
            InputAction::Down => {
                self.select(Some(current.saturating_add(1)));
                true
            },
            _ => false,
        }
    }

    /// Fits the selection to `files` and gives the widget that draws the
    /// list in `area`.
    pub fn draw(&mut self, area: Area, files: &[File], focused: bool) -> (r: Widget)
        ensures
            final(self)@ == after_sync(old(self)@, files@.len() as usize),
            is_file_list_widget(r@, area, files_view(files@), focused, final(self)@),
    {
        self.sync(files.len());
        proof {
            reveal_strlit("Files");
            reveal_strlit("No changes");
            reveal_strlit("> ");
        }
        let frame = block("Files", focused);
        assert(frame@.0 =~= files_title());
        if files.len() == 0 {
            let mut items: Vec<TextLine> = Vec::new();
            let mut spans = Vec::new();
            spans.push(StyledText { content: String::from_str("No changes"), fg: None, bold: false });
            assert(spans@[0]@.content =~= no_changes_line());
            let line = TextLine { spans };
            assert(line@ =~= seq![raw(no_changes_line())]);
            items.push(line);
            let w = Widget::List { area, items, block: frame, highlight: None };
            assert(lines_view(items@) =~= seq![seq![raw(no_changes_line())]]);
            return w;
        }
        let mut items: Vec<TextLine> = Vec::new();
        let n = files.len();
        for i in 0..n
            invariant
                n == files@.len(),
                items@.len() == i,
                forall|j: int| 0 <= j < i ==> is_change_line(#[trigger] items@[j]@, files@[j]@),
        {
            let line = file_change_line(&files[i]);
            let ghost before = items@;
            items.push(line);
            assert(forall|j: int| 0 <= j < i ==> items@[j] == before[j]);
        }
        let symbol = String::from_str("> ");
        assert(symbol@ =~= seq!['>', ' ']);
        let highlight = Highlight { background: Color::DarkGray, symbol, selected: self.selected, offset: self.offset };
        let w = Widget::List { area, items, block: frame, highlight: Some(highlight) };
        proof {
            let iv = lines_view(items@);
            assert forall|i: int| 0 <= i < n implies is_change_line(#[trigger] iv[i], files_view(files@)[i]) by {
                assert(iv[i] == items@[i]@);
                assert(files_view(files@)[i] == files@[i]@);
            }
        }
        w
    }
}

// ---------------------------------------------------------------------------
// Laws of the selection
// ---------------------------------------------------------------------------

/// After the list is fitted to `count` files, nothing is selected and the
/// list is at its top when there are none, and otherwise a line within the
/// list is selected; fitting again changes nothing.
pub proof fn law_sync_in_range(l: FileListView, count: usize)
    ensures
        count == 0 ==> after_sync(l, count) == (FileListView { selected: None, offset: 0 }),
        count > 0 ==> (after_sync(l, count).selected matches Some(i) && i < count),
        after_sync(after_sync(l, count), count) == after_sync(l, count),
{
}

/// Moving down then up returns to the line selected before (the first line
/// where none was) unless it is the last index; moving up then down does so
/// unless it is the first line. The scroll position is kept.
pub proof fn law_down_then_up(l: FileListView)
    ensures
        ({
            let s = match l.selected {
                Some(i) => i,
                None => 0,
            };
            &&& s < usize::MAX ==> after_action(after_action(l, InputAction::Down).0, InputAction::Up).0
                == FileListView { selected: Some(s), offset: l.offset }
            &&& s > 0 ==> after_action(after_action(l, InputAction::Up).0, InputAction::Down).0
                == FileListView { selected: Some(s), offset: l.offset }
        }),
{
}

/// Up and down are the only actions the list handles; others leave it as
/// it is.
pub proof fn law_only_moves_handled(l: FileListView, action: InputAction)
    ensures
        after_action(l, action).1 <==> (action == InputAction::Up || action == InputAction::Down),
        !after_action(l, action).1 ==> after_action(l, action).0 == l,
{
}

/// Fitting the list to `count` files selects the smaller of the selected
/// line and the last line, the first line where none was selected; a
/// selection already within the list is kept as it is, and so is the scroll
/// position.
pub proof fn law_sync_keeps_selection(l: FileListView, count: usize)
    ensures
        count > 0 ==> after_sync(l, count).offset == l.offset,
        count > 0 && l.selected is None ==> after_sync(l, count).selected == Some(0usize),
        count > 0 && (l.selected matches Some(i) && i < count) ==> after_sync(l, count).selected == l.selected,
        count > 0 && (l.selected matches Some(i) && i >= count) ==> after_sync(l, count).selected == Some(
            (count - 1) as usize,
        ),
{
}

/// Down moves the selection one line down (from the first line where none
/// was), and up one line up, stopping at the first line; neither changes
/// the scroll position.
pub proof fn law_one_step(l: FileListView)
    ensures
        after_action(l, InputAction::Down).1,
        after_action(l, InputAction::Up).1,
        after_action(l, InputAction::Down).0.offset == l.offset,
        after_action(l, InputAction::Up).0.offset == l.offset,
        l.selected is None ==> after_action(l, InputAction::Down).0.selected == Some(1usize),
        l.selected is None ==> after_action(l, InputAction::Up).0.selected == Some(0usize),
        (l.selected matches Some(i) && i < usize::MAX) ==> after_action(l, InputAction::Down).0.selected == Some(
            (l.selected->0 + 1) as usize,
        ),
        l.selected == Some(usize::MAX) ==> after_action(l, InputAction::Down).0.selected == l.selected,
        (l.selected matches Some(i) && i > 0) ==> after_action(l, InputAction::Up).0.selected == Some(
            (l.selected->0 - 1) as usize,
        ),
        l.selected == Some(0usize) ==> after_action(l, InputAction::Up).0.selected == Some(0usize),
{
}

} // verus!
