//! How a changed file is shown in the file list.
use vstd::prelude::*;
use vstd::utf8::{encode_utf8, is_ascii_chars, is_continuation_byte};
use crate::git::{File, FileStatus, FileView};
use crate::text::char_text;
use crate::ui::common::{colored, raw, spans_view, Color, SpanView, StyledText, TextLine};

verus! {

broadcast use vstd::utf8::is_ascii_chars_encode_utf8;

/// The letter that stands for a status in the file list.
pub open spec fn short_label(status: FileStatus) -> char {
    match status {
        FileStatus::Added => 'A',
        FileStatus::Modified => 'M',
        FileStatus::Deleted => 'D',
        FileStatus::Renamed => 'R',
        FileStatus::Copied => 'C',
        FileStatus::TypeChanged => 'T',
        FileStatus::Untracked => '?',
        FileStatus::Conflicted => 'U',
    }
}

/// The letter that stands for `status` in the file list.
pub fn status_short_label(status: FileStatus) -> (c: char)
    ensures
        c == short_label(status),
{
    match status {
        FileStatus::Added => 'A',
        FileStatus::Modified => 'M',
        FileStatus::Deleted => 'D',
        FileStatus::Renamed => 'R',
        FileStatus::Copied => 'C',
        FileStatus::TypeChanged => 'T',
        FileStatus::Untracked => '?',
        FileStatus::Conflicted => 'U',
    }
}

/// The color of a status letter.
pub open spec fn label_color(status: FileStatus) -> Color {
    match status {
        FileStatus::Added => Color::Green,
        FileStatus::Modified => Color::Yellow,
        FileStatus::Deleted => Color::Red,
        FileStatus::Renamed => Color::Cyan,
        FileStatus::Copied => Color::Cyan,
        FileStatus::TypeChanged => Color::Magenta,
        FileStatus::Untracked => Color::Blue,
        FileStatus::Conflicted => Color::Red,
    }
}

/// The color of the letter for `status`.
pub fn status_color(status: FileStatus) -> (c: Color)
    ensures
        c == label_color(status),
{
    match status {
        FileStatus::Added => Color::Green,
        FileStatus::Modified => Color::Yellow,
        FileStatus::Deleted => Color::Red,
        FileStatus::Renamed => Color::Cyan,
        FileStatus::Copied => Color::Cyan,
        FileStatus::TypeChanged => Color::Magenta,
        FileStatus::Untracked => Color::Blue,
        FileStatus::Conflicted => Color::Red,
    }
}

/// The status column of a file: the status letter in bold and in its
/// color, or a blank.
pub open spec fn status_cell(status: Option<FileStatus>) -> SpanView {
    match status {
        Some(s) => SpanView { content: seq![short_label(s)], fg: Some(label_color(s)), bold: true },
        None => raw(seq![' ']),
    }
}

/// The status column for `status`.
pub fn status_span(status: Option<FileStatus>) -> (r: StyledText)
    ensures
        r@ == status_cell(status),
{
    match status {
        Some(s) => StyledText { content: char_text(status_short_label(s)), fg: Some(status_color(s)), bold: true },
        None => {
            proof {
                reveal_strlit(" ");
            }
            let r = StyledText { content: String::from_str(" "), fg: None, bold: false };
            assert(r@.content =~= seq![' ']);
            r
        },
    }
}

// ---------------------------------------------------------------------------
// Hexadecimal colors
// ---------------------------------------------------------------------------

/// The value of a hexadecimal digit byte.
pub open spec fn hex_digit_value(b: u8) -> Option<u8> {
    if 0x30 <= b <= 0x39 {
        Some((b - 0x30) as u8)
    } else if 0x61 <= b <= 0x66 {
        Some((b - 0x61 + 10) as u8)
    } else if 0x41 <= b <= 0x46 {
        Some((b - 0x41 + 10) as u8)
    } else {
        None
    }
}

/// What `u8::from_str_radix(_, 16)` gives for the two bytes `b0 b1`: an
/// optional `+` sign then hexadecimal digits.
pub open spec fn hex_pair(b0: u8, b1: u8) -> Option<u8> {
    if b0 == 0x2b {
        hex_digit_value(b1)
    } else {
        match (hex_digit_value(b0), hex_digit_value(b1)) {
            (Some(h), Some(l)) => Some((h * 16 + l) as u8),
            _ => None,
        }
    }
}

/// The bytes without a leading `#`.
pub open spec fn strip_hash(b: Seq<u8>) -> Seq<u8> {
    if b.len() > 0 && b[0] == 0x23 {
        b.drop_first()
    } else {
        b
    }
}

/// The color written `#rrggbb` (or `rrggbb`) in the bytes `b`.
pub open spec fn hex_color_of(b: Seq<u8>) -> Option<Color> {
    let h = strip_hash(b);
    if h.len() != 6 {
        None
    } else {
        match (hex_pair(h[0], h[1]), hex_pair(h[2], h[3]), hex_pair(h[4], h[5])) {
            (Some(r), Some(g), Some(bl)) => Some(Color::Rgb(r, g, bl)),
            _ => None,
        }
    }
}

/// Reading the color would cut the text inside a character: the text has
/// six bytes after the optional `#` and one of the cuts after the second or
/// the fourth byte would fall inside a character.
pub open spec fn hex_color_cuts_char(b: Seq<u8>) -> bool {
    let h = strip_hash(b);
    h.len() == 6 && (is_continuation_byte(h[2]) || (hex_pair(h[0], h[1]).is_some() && is_continuation_byte(h[4])))
}

/// The value of a hexadecimal digit byte.
fn hex_digit(b: u8) -> (r: Option<u8>)
    ensures
        r == hex_digit_value(b),
{
    if 0x30 <= b && b <= 0x39 {
        Some(b - 0x30)
    } else if 0x61 <= b && b <= 0x66 {
        Some(b - 0x61 + 10)
    } else if 0x41 <= b && b <= 0x46 {
        Some(b - 0x41 + 10)
    } else {
        None
    }
}

/// What `u8::from_str_radix(_, 16)` gives for two bytes.
fn parse_hex_pair(b0: u8, b1: u8) -> (r: Option<u8>)
    ensures
        r == hex_pair(b0, b1),
{
    if b0 == 0x2b {
        hex_digit(b1)
    } else {
        match (hex_digit(b0), hex_digit(b1)) {
            (Some(h), Some(l)) => Some(h * 16 + l),
            _ => None,
        }
    }
}

/// The color written in hexadecimal as `#rrggbb` (the `#` may be left
/// out); `None` where the text is not such a color.
pub fn hex_color(hex: &str) -> (r: Option<Color>)
    requires
        !hex_color_cuts_char(encode_utf8(hex@)),
    ensures
        r == hex_color_of(encode_utf8(hex@)),
{
    let b = hex.as_bytes();
    let start: usize = if b.len() > 0 && b[0] == 0x23 {
        1
    } else {
        0
    };
    let ghost h = strip_hash(b@);
    assert(forall|i: int| 0 <= i < h.len() ==> h[i] == b@[start + i]);
    if b.len() - start != 6 {
        return None;
    }
    let red = match parse_hex_pair(b[start], b[start + 1]) {
        Some(v) => v,
        None => {
            return None;
        },
    };
    let green = match parse_hex_pair(b[start + 2], b[start + 3]) {
        Some(v) => v,
        None => {
            return None;
        },
    };
    let blue = match parse_hex_pair(b[start + 4], b[start + 5]) {
        Some(v) => v,
        None => {
            return None;
        },
    };
    Some(Color::Rgb(red, green, blue))
}

// ---------------------------------------------------------------------------
// File icons
// ---------------------------------------------------------------------------

/// A hexadecimal digit character.
pub open spec fn is_hex_char(c: char) -> bool {
    ('0' <= c <= '9') || ('a' <= c <= 'f') || ('A' <= c <= 'F')
}

/// The text is `#` followed by six hexadecimal digits.
pub open spec fn is_hex_color_text(s: Seq<char>) -> bool {
    &&& s.len() == 7
    &&& s[0] == '#'
    &&& forall|i: int| 1 <= i < 7 ==> is_hex_char(#[trigger] s[i])
}

/// The icon and icon color text that `devicons` gives the path `path`,
/// where `is_dir` tells whether the path names a directory on disk.
pub uninterp spec fn devicon_for(path: Seq<char>, is_dir: bool) -> (char, Seq<char>);

/// Calls `devicons::FileIcon::from` on the path and returns the icon and
/// its color. The crate's answer depends on the path's text and on whether
/// the path is a directory on disk, which is left open. Claimed: the result
/// is the named `devicon_for` of the path for one of the two answers, and
/// the color is `#` and six hexadecimal digits, as every color in the
/// crate's tables is.
#[verifier::external_body]
fn file_icon(path: &str) -> (r: (char, &'static str))
    ensures
        exists|is_dir: bool| #![trigger devicon_for(path@, is_dir)] (r.0, r.1@) == devicon_for(path@, is_dir),
        is_hex_color_text(r.1@),
{
    let icon = devicons::FileIcon::from(path);
    (icon.icon, icon.color)
}

proof fn lemma_hex_color_text(s: Seq<char>)
    requires
        is_hex_color_text(s),
    ensures
        !hex_color_cuts_char(encode_utf8(s)),
        hex_color_of(encode_utf8(s)).is_some(),
{
    assert(is_ascii_chars(s));
    let b = encode_utf8(s);
    assert(b.len() == 7);
    assert(b[0] == s[0] as u8);
    let h = strip_hash(b);
    assert forall|i: int| 0 <= i < 6 implies hex_digit_value(#[trigger] h[i]).is_some() && h[i] < 0x80 by {
        assert(h[i] == b[i + 1]);
        assert(b[i + 1] == s[i + 1] as u8);
        assert(is_hex_char(s[i + 1]));
    }
    assert(hex_digit_value(h[0]).is_some() && hex_digit_value(h[1]).is_some());
    assert(hex_digit_value(h[2]).is_some() && hex_digit_value(h[3]).is_some());
    assert(hex_digit_value(h[4]).is_some() && hex_digit_value(h[5]).is_some());
}

/// The color of a file icon whose color text has the bytes `color`: the
/// color it writes, gray where it writes none.
pub open spec fn icon_color(color: Seq<u8>) -> Color {
    match hex_color_of(color) {
        Some(c) => c,
        None => Color::Gray,
    }
}

/// The line of the file list for `f`, with the file icon `icon` whose color
/// text has the bytes `color`: index status, worktree status, a blank, the
/// icon in its color, a blank, the path, and for a file with a source path
/// a blank, `from` and the source path in dark gray after a blank.
pub open spec fn change_line(f: FileView, icon: char, color: Seq<u8>) -> Seq<SpanView> {
    let base = seq![
        status_cell(f.index_status),
        status_cell(f.worktree_status),
        raw(seq![' ']),
        colored(seq![icon], icon_color(color)),
        raw(seq![' ']),
        raw(f.path),
    ];
    match f.old_path {
        Some(p) => base + seq![
            raw(seq![' ']),
            colored(seq!['f', 'r', 'o', 'm'], Color::DarkGray),
            raw(seq![' ']),
            colored(p, Color::DarkGray),
        ],
        None => base,
    }
}

/// A blank.
fn blank() -> (r: StyledText)
    ensures
        r@ == raw(seq![' ']),
{
    proof {
        reveal_strlit(" ");
    }
    let r = StyledText { content: String::from_str(" "), fg: None, bold: false };
    assert(r@.content =~= seq![' ']);
    r
}

/// The line of the file list for `file`, given its icon and the color text
/// of the icon.
pub fn file_change_line_with_icon(file: &File, icon: char, color: &str) -> (r: TextLine)
    requires
        !hex_color_cuts_char(encode_utf8(color@)),
    ensures
        r@ == change_line(file@, icon, encode_utf8(color@)),
{
    let icon_fg = match hex_color(color) {
        Some(c) => c,
        None => Color::Gray,
    };
    let mut spans: Vec<StyledText> = Vec::new();
    spans.push(status_span(file.index_status));
    spans.push(status_span(file.worktree_status));
    spans.push(blank());
    spans.push(StyledText { content: char_text(icon), fg: Some(icon_fg), bold: false });
    spans.push(blank());
    spans.push(StyledText { content: file.path.clone(), fg: None, bold: false });
    let ghost base = spans_view(spans@);
    match &file.old_path {
        Some(old_path) => {
            proof {
                reveal_strlit("from");
            }
            spans.push(blank());
            let from = StyledText { content: String::from_str("from"), fg: Some(Color::DarkGray), bold: false };
            assert(from@.content =~= seq!['f', 'r', 'o', 'm']);
            spans.push(from);
            spans.push(blank());
            spans.push(StyledText { content: old_path.clone(), fg: Some(Color::DarkGray), bold: false });
        },
        None => {},
    }
    let r = TextLine { spans };
    assert(r@ =~= change_line(file@, icon, encode_utf8(color@)));
    r
}

/// `line` is the line of the file list for `f`, with the icon that
/// `devicons` gives the path of `f` (whether or not it names a directory),
/// whose color text is `#` and six hexadecimal digits.
pub open spec fn is_change_line(line: Seq<SpanView>, f: FileView) -> bool {
    exists|is_dir: bool|
        #![trigger devicon_for(f.path, is_dir)]
        is_hex_color_text(devicon_for(f.path, is_dir).1) && line == change_line(
            f,
            devicon_for(f.path, is_dir).0,
            encode_utf8(devicon_for(f.path, is_dir).1),
        )
}

/// The line of the file list for `file`, with the icon that the icon
/// table gives its path.
pub fn file_change_line(file: &File) -> (r: TextLine)
    ensures
        is_change_line(r@, file@),
{
    let (icon, color) = file_icon(file.path.as_str());
    proof {
        lemma_hex_color_text(color@);
    }
    let r = file_change_line_with_icon(file, icon, color);
    proof {
        let is_dir = choose|d: bool| (icon, color@) == devicon_for(file.path@, d);
        assert(devicon_for(file@.path, is_dir) == (icon, color@));
    }
    r
}

// ---------------------------------------------------------------------------
// Laws of the file lines
// ---------------------------------------------------------------------------

/// The cell of a status shows its letter, bold in its color: A green for
/// added, M yellow for modified, D red for deleted, R cyan for renamed, C
/// cyan for copied, T magenta for a type change, ? blue for untracked and U
/// red for conflicted; no status shows a plain blank.
pub proof fn law_status_cell_letters()
    ensures
        status_cell(Some(FileStatus::Added)) == (SpanView { content: seq!['A'], fg: Some(Color::Green), bold: true }),
        status_cell(Some(FileStatus::Modified)) == (SpanView { content: seq!['M'], fg: Some(Color::Yellow), bold: true }),
        status_cell(Some(FileStatus::Deleted)) == (SpanView { content: seq!['D'], fg: Some(Color::Red), bold: true }),
        status_cell(Some(FileStatus::Renamed)) == (SpanView { content: seq!['R'], fg: Some(Color::Cyan), bold: true }),
        status_cell(Some(FileStatus::Copied)) == (SpanView { content: seq!['C'], fg: Some(Color::Cyan), bold: true }),
        status_cell(Some(FileStatus::TypeChanged)) == (SpanView { content: seq!['T'], fg: Some(Color::Magenta), bold: true }),
        status_cell(Some(FileStatus::Untracked)) == (SpanView { content: seq!['?'], fg: Some(Color::Blue), bold: true }),
        status_cell(Some(FileStatus::Conflicted)) == (SpanView { content: seq!['U'], fg: Some(Color::Red), bold: true }),
        status_cell(None) == (SpanView { content: seq![' '], fg: None, bold: false }),
{
}

/// A file's line starts with the cell of its index status and then the cell
/// of its worktree status, each whatever the other status is; then a blank,
/// the icon, a blank and the path; and, for a file with a source path,
/// a blank, "from", a blank and the source path.
pub proof fn law_change_line_columns(f: FileView, icon: char, color: Seq<u8>)
    ensures
        ({
            let line = change_line(f, icon, color);
            &&& line.len() == if f.old_path is Some { 10int } else { 6int }
            &&& line[0] == status_cell(f.index_status)
            &&& line[1] == status_cell(f.worktree_status)
            &&& line[2] == raw(seq![' '])
            &&& line[3].content == seq![icon]
            &&& line[4] == raw(seq![' '])
            &&& line[5] == raw(f.path)
            &&& f.old_path matches Some(p) ==> {
                &&& line[6] == raw(seq![' '])
                &&& line[7] == colored(seq!['f', 'r', 'o', 'm'], Color::DarkGray)
                &&& line[8] == raw(seq![' '])
                &&& line[9] == colored(p, Color::DarkGray)
            }
        }),
        forall|g: FileView| #![trigger change_line(g, icon, color)]
            g.index_status == f.index_status ==> change_line(g, icon, color)[0] == change_line(f, icon, color)[0],
        forall|g: FileView| #![trigger change_line(g, icon, color)]
            g.worktree_status == f.worktree_status ==> change_line(g, icon, color)[1] == change_line(f, icon, color)[1],
{
}

/// The line that `file_change_line` gives a file has the file's two status
/// cells first, index then worktree, and the file's path.
pub proof fn law_file_line_statuses(line: Seq<SpanView>, f: FileView)
    requires
        is_change_line(line, f),
    ensures
        line[0] == status_cell(f.index_status),
        line[1] == status_cell(f.worktree_status),
        line[5] == raw(f.path),
{
    let d = choose|d: bool| #![trigger devicon_for(f.path, d)]
        is_hex_color_text(devicon_for(f.path, d).1) && line == change_line(
            f,
            devicon_for(f.path, d).0,
            encode_utf8(devicon_for(f.path, d).1),
        );
    law_change_line_columns(f, devicon_for(f.path, d).0, encode_utf8(devicon_for(f.path, d).1));
}

// ---------------------------------------------------------------------------
// Laws of the colors
// ---------------------------------------------------------------------------

/// The lower-case hexadecimal digit byte for `v` (below sixteen).
pub open spec fn hex_digit_byte(v: u8) -> u8 {
    if v < 10 {
        (0x30 + v) as u8
    } else {
        (0x61 + v - 10) as u8
    }
}

/// The bytes of `#rrggbb` for a color, in lower-case digits.
pub open spec fn hex_color_bytes(r: u8, g: u8, b: u8) -> Seq<u8> {
    seq![
        0x23u8,
        hex_digit_byte(r / 16),
        hex_digit_byte(r % 16),
        hex_digit_byte(g / 16),
        hex_digit_byte(g % 16),
        hex_digit_byte(b / 16),
        hex_digit_byte(b % 16),
    ]
}

/// A color written as `#rrggbb` reads back as that color, and reading it
/// cuts no character.
pub proof fn law_hex_color_round_trip(r: u8, g: u8, b: u8)
    ensures
        !hex_color_cuts_char(hex_color_bytes(r, g, b)),
        hex_color_of(hex_color_bytes(r, g, b)) == Some(Color::Rgb(r, g, b)),
{
    let bs = hex_color_bytes(r, g, b);
    let h = strip_hash(bs);
    assert(h =~= bs.drop_first());
    assert(hex_pair(h[0], h[1]) == Some(r));
    assert(hex_pair(h[2], h[3]) == Some(g));
    assert(hex_pair(h[4], h[5]) == Some(b));
}

} // verus!
