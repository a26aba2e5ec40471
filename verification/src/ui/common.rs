//! What the screen shows, as plain values: areas, colors, styled text,
//! bordered blocks and widgets. The terminal front end draws them.
use vstd::prelude::*;
use ratatui::layout::{Constraint, Direction, Layout, Rect};

verus! {

/// A rectangle of the terminal, in cells.
#[derive(Clone, Copy, Debug, PartialEq, Eq, Structural)]
pub struct Area {
    pub x: u16,
    pub y: u16,
    pub width: u16,
    pub height: u16,
}

/// The direction in which a layout splits an area.
#[derive(Clone, Copy, Debug, PartialEq, Eq, Structural)]
pub enum LayoutDirection {
    Horizontal,
    Vertical,
}

/// What a layout asks of one part of the area it splits, in cells or in
/// percent of the area.
#[derive(Clone, Copy, Debug, PartialEq, Eq, Structural)]
pub enum LayoutConstraint {
    /// At least this many cells.
    Min(u16),
    /// Exactly this many cells.
    Length(u16),
    /// This percentage of the area.
    Percentage(u16),
}

/// `part` lies inside `area` along `direction` and spans all of it across.
pub open spec fn lies_within(part: Area, area: Area, direction: LayoutDirection) -> bool {
    match direction {
        LayoutDirection::Horizontal => {
            &&& part.y == area.y
            &&& part.height == area.height
            &&& area.x <= part.x
            &&& part.x + part.width <= area.x + area.width
        },
        LayoutDirection::Vertical => {
            &&& part.x == area.x
            &&& part.width == area.width
            &&& area.y <= part.y
            &&& part.y + part.height <= area.y + area.height
        },
    }
}

/// `first` ends where `second` starts or before, along `direction`.
pub open spec fn comes_before(first: Area, second: Area, direction: LayoutDirection) -> bool {
    match direction {
        LayoutDirection::Horizontal => first.x + first.width <= second.x,
        LayoutDirection::Vertical => first.y + first.height <= second.y,
    }
}

/// `parts` lie inside `area` along `direction`, each spanning it across,
/// one after the other in order.
pub open spec fn parts_in_order(parts: Seq<Area>, area: Area, direction: LayoutDirection) -> bool {
    &&& forall|i: int| 0 <= i < parts.len() ==> lies_within(#[trigger] parts[i], area, direction)
    &&& forall|i: int| 0 <= i < parts.len() - 1 ==> comes_before(#[trigger] parts[i], parts[i + 1], direction)
}

/// Calls `ratatui::layout::Layout::split` on a layout with the given
/// direction and constraints (no margin, no spacing, the default flex).
/// Claimed: one part per constraint, as the source makes one segment per
/// constraint; each part lies inside `area` and spans it across, as the
/// solver's required constraints keep every split point inside the area and
/// the rectangles copy the other dimension from it; and the parts follow one
/// another in order, as the crate documents the default spacing to leave no
/// overlap between segments. Where each split point falls is left open: the
/// layout solver works in floating point and picks its pivots in the order
/// in which randomly seeded hash maps are walked, so two calls on equal
/// arguments need not agree.
#[verifier::external_body]
pub(crate) fn split_area(area: Area, direction: LayoutDirection, constraints: &[LayoutConstraint]) -> (r: Vec<Area>)
    ensures
        r@.len() == constraints@.len(),
        parts_in_order(r@, area, direction),
{
    let direction = match direction {
        LayoutDirection::Horizontal => Direction::Horizontal,
        LayoutDirection::Vertical => Direction::Vertical,
    };
    let constraints = constraints.iter().map(|c| match *c {
        LayoutConstraint::Min(n) => Constraint::Min(n),
        LayoutConstraint::Length(n) => Constraint::Length(n),
        LayoutConstraint::Percentage(p) => Constraint::Percentage(p),
    });
    let rect = Rect { x: area.x, y: area.y, width: area.width, height: area.height };
    let parts = Layout::default().direction(direction).constraints(constraints).split(rect);
    parts.iter().map(|a| Area { x: a.x, y: a.y, width: a.width, height: a.height }).collect()
}

/// A color of the terminal.
#[derive(Clone, Copy, Debug, PartialEq, Eq, Structural)]
pub enum Color {
    Green,
    Yellow,
    Red,
    Cyan,
    Magenta,
    Blue,
    Gray,
    DarkGray,
    Rgb(u8, u8, u8),
}

/// The model of a piece of styled text.
pub struct SpanView {
    pub content: Seq<char>,
    pub fg: Option<Color>,
    pub bold: bool,
}

/// A piece of text with a foreground color and weight.
#[derive(Clone, Debug)]
pub struct StyledText {
    pub content: String,
    pub fg: Option<Color>,
    pub bold: bool,
}

impl View for StyledText {
    type V = SpanView;

    open spec fn view(&self) -> SpanView {
        SpanView { content: self.content@, fg: self.fg, bold: self.bold }
    }
}

/// Unstyled text.
pub open spec fn raw(content: Seq<char>) -> SpanView {
    SpanView { content, fg: None, bold: false }
}

/// Text in the color `c`.
pub open spec fn colored(content: Seq<char>, c: Color) -> SpanView {
    SpanView { content, fg: Some(c), bold: false }
}

/// A line of styled text.
#[derive(Clone, Debug)]
pub struct TextLine {
    pub spans: Vec<StyledText>,
}

/// The models of a sequence of pieces of text.
pub open spec fn spans_view(spans: Seq<StyledText>) -> Seq<SpanView> {
    spans.map_values(|s: StyledText| s@)
}

impl View for TextLine {
    type V = Seq<SpanView>;

    open spec fn view(&self) -> Seq<SpanView> {
        spans_view(self.spans@)
    }
}

/// The models of a sequence of lines.
pub open spec fn lines_view(lines: Seq<TextLine>) -> Seq<Seq<SpanView>> {
    lines.map_values(|l: TextLine| l@)
}

/// A frame with a border on all sides and a title.
#[derive(Clone, Debug)]
pub struct BlockSpec {
    pub title: String,
    pub border: Color,
}

impl View for BlockSpec {
    type V = (Seq<char>, Color);

    open spec fn view(&self) -> (Seq<char>, Color) {
        (self.title@, self.border)
    }
}

/// The border color of a pane: green when it has the focus, dark gray
/// otherwise.
pub open spec fn border_color(focused: bool) -> Color {
    if focused {
        Color::Green
    } else {
        Color::DarkGray
    }
}

/// The frame of a pane titled `title`.
pub fn block(title: &str, focused: bool) -> (r: BlockSpec)
    ensures
        r@ == (title@, border_color(focused)),
{
    let border = if focused {
        Color::Green
    } else {
        Color::DarkGray
    };
    BlockSpec { title: String::from_str(title), border }
}

/// How a list marks its selected line, and which line that is.
#[derive(Clone, Debug)]
pub struct Highlight {
    /// Background of the selected line.
    pub background: Color,
    /// Text put before the selected line.
    pub symbol: String,
    /// The selected line.
    pub selected: Option<usize>,
    /// The first line shown.
    pub offset: usize,
}

/// The model of a highlight.
pub struct HighlightView {
    pub background: Color,
    pub symbol: Seq<char>,
    pub selected: Option<usize>,
    pub offset: usize,
}

impl View for Highlight {
    type V = HighlightView;

    open spec fn view(&self) -> HighlightView {
        HighlightView {
            background: self.background,
            symbol: self.symbol@,
            selected: self.selected,
            offset: self.offset,
        }
    }
}

/// Something to draw in an area of the terminal.
#[derive(Clone, Debug)]
pub enum Widget {
    /// Text, in a frame where one is given.
    Paragraph { area: Area, text: String, frame: Option<BlockSpec> },
    /// Lines in a frame; a selectable list where a highlight is given.
    List { area: Area, items: Vec<TextLine>, block: BlockSpec, highlight: Option<Highlight> },
}

/// The model of a widget.
pub enum WidgetView {
    Paragraph { area: Area, text: Seq<char>, frame: Option<(Seq<char>, Color)> },
    List {
        area: Area,
        items: Seq<Seq<SpanView>>,
        block: (Seq<char>, Color),
        highlight: Option<HighlightView>,
    },
}

impl View for Widget {
    type V = WidgetView;

    open spec fn view(&self) -> WidgetView {
        match self {
            Widget::Paragraph { area, text, frame } => WidgetView::Paragraph {
                area: *area,
                text: text@,
                frame: match frame {
                    Some(b) => Some(b@),
                    None => None,
                },
            },
            Widget::List { area, items, block, highlight } => WidgetView::List {
                area: *area,
                items: lines_view(items@),
                block: block@,
                highlight: match highlight {
                    Some(h) => Some(h@),
                    None => None,
                },
            },
        }
    }
}

/// The models of a sequence of widgets.
pub open spec fn widgets_view(ws: Seq<Widget>) -> Seq<WidgetView> {
    ws.map_values(|w: Widget| w@)
}

} // verus!
