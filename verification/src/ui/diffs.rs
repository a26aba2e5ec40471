//! The diff pane.
use vstd::prelude::*;
use crate::ui::common::{block, border_color, Area, Widget, WidgetView};

verus! {

/// The diff pane; it shows no diff yet.
#[derive(Clone, Copy, Debug)]
pub struct DiffView;

impl Default for DiffView {
    fn default() -> (r: Self)
        ensures
            r == DiffView,
    {
        DiffView
    }
}

/// The title of the diff pane's frame.
pub open spec fn diff_title() -> Seq<char> {
    seq!['D', 'i', 'f', 'f']
}

/// The text the diff pane shows.
pub open spec fn diff_text() -> Seq<char> {
    seq!['T', 'O', 'D', 'O', ' ', 'd', 'i', 'f', 'f']
}

/// The widget of the diff pane in `area`.
pub open spec fn diff_widget(area: Area, focused: bool) -> WidgetView {
    WidgetView::Paragraph { area, text: diff_text(), frame: Some((diff_title(), border_color(focused))) }
}

impl DiffView {
    /// The widget that draws the diff pane in `area`.
    pub fn draw(&self, area: Area, focused: bool) -> (r: Widget)
        ensures
            r@ == diff_widget(area, focused),
    {
        proof {
            reveal_strlit("Diff");
            reveal_strlit("TODO diff");
        }
        let frame = block("Diff", focused);
        let text = String::from_str("TODO diff");
        assert(frame@.0 =~= diff_title());
        assert(text@ =~= diff_text());
        Widget::Paragraph { area, text, frame: Some(frame) }
    }
}

} // verus!
