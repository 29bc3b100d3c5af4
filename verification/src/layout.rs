//! Screen geometry: the split of the screen into the worktree list, the
//! terminal and the status bar; centered dialogs; the text of the dialog
//! input and of the terminal title.
use vstd::prelude::*;
use ratatui::layout::{Constraint, Layout};
use ratatui::widgets::Block;
use crate::keybindings::{Keybindings, is_hint};
use crate::keys::Action;
use crate::worktree_panel::{LineSegment, SegmentStyle, push_segment, segments_view};

verus! {

/// A rectangle of terminal cells.
#[derive(Clone, Copy, Debug, PartialEq, Eq, Structural)]
pub struct Rect {
    pub x: u16,
    pub y: u16,
    pub width: u16,
    pub height: u16,
}

pub open spec fn sat_add(a: u16, b: u16) -> u16 {
    if a + b > u16::MAX {
        u16::MAX
    } else {
        (a + b) as u16
    }
}

pub open spec fn sat_sub(a: u16, b: u16) -> u16 {
    if a >= b {
        (a - b) as u16
    } else {
        0
    }
}

pub open spec fn min_u16(a: u16, b: u16) -> u16 {
    if a <= b {
        a
    } else {
        b
    }
}

/// The area inside a border on all four sides, as `Block::inner` computes
/// it for a block with every border and no padding.
pub open spec fn bordered_inner_spec(a: Rect) -> Rect {
    Rect {
        x: min_u16(sat_add(a.x, 1), sat_add(a.x, a.width)),
        y: min_u16(sat_add(a.y, 1), sat_add(a.y, a.height)),
        width: sat_sub(sat_sub(a.width, 1), 1),
        height: sat_sub(sat_sub(a.height, 1), 1),
    }
}

/// Calls `Block::inner` on a block with all four borders. Its contract is
/// the computation of that method in ratatui 0.29 for a block with every
/// border and no padding.
#[verifier::external_body]
pub fn bordered_inner(area: Rect) -> (r: Rect)
    ensures
        r == bordered_inner_spec(area),
{
    let a = Block::bordered().inner(
        ratatui::layout::Rect { x: area.x, y: area.y, width: area.width, height: area.height },
    );
    Rect { x: a.x, y: a.y, width: a.width, height: a.height }
}

/// The split that `Layout::vertical([Min(0), Length(1)])` makes of an area:
/// the main area and the one-line status bar under it.
pub uninterp spec fn status_bar_split(area: Rect) -> (Rect, Rect);

/// Calls ratatui's layout solver for a main area over a one-line bar. Its
/// result is named `status_bar_split`; what is stated besides is that a
/// vertical layout without margin gives each part the area's column and
/// width, as `changes_to_rects` builds them. The rows the solver picks are
/// left unsaid.
#[verifier::external_body]
fn split_status_bar(area: Rect) -> (r: (Rect, Rect))
    ensures
        r == status_bar_split(area),
        r.0.x == area.x && r.0.width == area.width,
        r.1.x == area.x && r.1.width == area.width,
{
    let [m, s] = Layout::vertical([Constraint::Min(0), Constraint::Length(1)]).areas(
        ratatui::layout::Rect { x: area.x, y: area.y, width: area.width, height: area.height },
    );
    (
        Rect { x: m.x, y: m.y, width: m.width, height: m.height },
        Rect { x: s.x, y: s.y, width: s.width, height: s.height },
    )
}

/// The split that `Layout::horizontal([Percentage(40), Percentage(60)])`
/// makes of an area: the left and the right column.
pub uninterp spec fn column_split(area: Rect) -> (Rect, Rect);

/// Calls ratatui's layout solver for a 40/60 split into columns. Its result
/// is named `column_split`; what is stated besides is that a horizontal
/// layout without margin gives each column the area's row and height. The
/// columns the solver picks are left unsaid.
#[verifier::external_body]
fn split_columns(area: Rect) -> (r: (Rect, Rect))
    ensures
        r == column_split(area),
        r.0.y == area.y && r.0.height == area.height,
        r.1.y == area.y && r.1.height == area.height,
{
    let [l, rt] = Layout::horizontal([Constraint::Percentage(40), Constraint::Percentage(60)]).areas(
        ratatui::layout::Rect { x: area.x, y: area.y, width: area.width, height: area.height },
    );
    (
        Rect { x: l.x, y: l.y, width: l.width, height: l.height },
        Rect { x: rt.x, y: rt.y, width: rt.width, height: rt.height },
    )
}

/// The split that `Layout::vertical` with `n` constraints `Length(1)` makes
/// of an area.
pub uninterp spec fn row_split(area: Rect, n: usize) -> Seq<Rect>;

/// Calls ratatui's layout solver for `n` one-line rows. Its result is named
/// `row_split`; what is stated besides is that `Layout::split` gives one
/// rectangle per constraint, each with the area's column and width. The
/// rows the solver picks are left unsaid.
#[verifier::external_body]
fn split_rows(area: Rect, n: usize) -> (r: Vec<Rect>)
    ensures
        r@ == row_split(area, n),
        r@.len() == n,
        forall|i: int| 0 <= i < n ==> #[trigger] r@[i].x == area.x && r@[i].width == area.width,
{
    Layout::vertical(vec![Constraint::Length(1); n]).split(
        ratatui::layout::Rect { x: area.x, y: area.y, width: area.width, height: area.height },
    ).iter().map(|a| Rect { x: a.x, y: a.y, width: a.width, height: a.height }).collect()
}

/// Where the parts of the screen go.
#[derive(Clone, Copy, Debug)]
pub struct PanelLayout {
    pub worktrees: Rect,
    pub terminal: Rect,
    pub terminal_inner: Rect,
    pub status: Rect,
}

/// Splits the screen: a one-line status bar at the bottom, the rest split
/// 40/60 between the worktree list and the terminal. `terminal_inner` is
/// the terminal's area inside its border, whose size the terminal session
/// is given.
pub fn panel_layout(area: Rect) -> (r: PanelLayout)
    ensures
        r.status == status_bar_split(area).1,
        r.worktrees == column_split(status_bar_split(area).0).0,
        r.terminal == column_split(status_bar_split(area).0).1,
        r.terminal_inner == bordered_inner_spec(r.terminal),
        r.status.x == area.x && r.status.width == area.width,
        r.worktrees.y == status_bar_split(area).0.y,
        r.terminal.y == status_bar_split(area).0.y,
        r.worktrees.height == status_bar_split(area).0.height,
        r.terminal.height == status_bar_split(area).0.height,
{
    let (main, status) = split_status_bar(area);
    let (left, right) = split_columns(main);
    let inner = bordered_inner(right);
    PanelLayout { worktrees: left, terminal: right, terminal_inner: inner, status }
}

/// A dialog `height` rows high and at most `max_width` columns wide,
/// leaving at least two columns on each side when the screen allows,
/// centered in `area`.
pub open spec fn dialog_area_spec(area: Rect, max_width: u16, height: u16) -> Rect {
    let w = min_u16(max_width, sat_sub(area.width, 4));
    Rect {
        x: (area.x + sat_sub(area.width, w) / 2) as u16,
        y: (area.y + sat_sub(area.height, height) / 2) as u16,
        width: w,
        height,
    }
}

/// A rectangle whose right and bottom edges are on the screen.
pub open spec fn on_screen(a: Rect) -> bool {
    a.x + a.width <= u16::MAX && a.y + a.height <= u16::MAX
}

/// The area of a centered dialog.
pub fn dialog_area(area: Rect, max_width: u16, height: u16) -> (r: Rect)
    requires
        on_screen(area),
    ensures
        r == dialog_area_spec(area, max_width, height),
{
    let w = if max_width <= area.width.saturating_sub(4) {
        max_width
    } else {
        area.width.saturating_sub(4)
    };
    let x = area.x + (area.width.saturating_sub(w)) / 2;
    let y = area.y + (area.height.saturating_sub(height)) / 2;
    Rect { x, y, width: w, height }
}

/// A dialog lies within the screen's columns, centered (its left and right
/// margins differ by at most one column), and within its rows when it fits.
pub proof fn law_dialog_centered(area: Rect, max_width: u16, height: u16)
    requires
        on_screen(area),
    ensures
        ({
            let d = dialog_area_spec(area, max_width, height);
            &&& area.x <= d.x
            &&& d.x + d.width <= area.x + area.width
            &&& (area.x + area.width - (d.x + d.width)) - (d.x - area.x) <= 1
            &&& (area.x + area.width - (d.x + d.width)) >= (d.x - area.x)
            &&& d.width <= max_width
            &&& area.height >= height ==> area.y <= d.y && d.y + d.height <= area.y + area.height
        }),
{
}

/// Where the parts of a dialog go.
pub struct DialogLayout {
    pub area: Rect,
    pub inner: Rect,
    pub rows: Vec<Rect>,
}

/// Lays out a centered dialog with a border and `rows` one-line rows inside
/// it, each as wide as the inside of the border.
pub fn dialog_layout(area: Rect, max_width: u16, height: u16, rows: usize) -> (r: DialogLayout)
    requires
        on_screen(area),
    ensures
        r.area == dialog_area_spec(area, max_width, height),
        r.inner == bordered_inner_spec(r.area),
        r.rows@ == row_split(r.inner, rows),
        r.rows@.len() == rows,
        forall|i: int|
            0 <= i < rows ==> #[trigger] r.rows@[i].x == r.inner.x && r.rows@[i].width
                == r.inner.width,
{
    let d = dialog_area(area, max_width, height);
    let inner = bordered_inner(d);
    let row_rects = split_rows(inner, rows);
    DialogLayout { area: d, inner, rows: row_rects }
}

/// The input line of the add-repository dialog: while adding, `Adding`
/// and the path; otherwise the path with the cursor mark `│` inserted at
/// byte offset `cursor_pos`, or the bare path when the cursor is past its
/// end.
pub open spec fn add_repo_input_spec(path: Seq<char>, cursor_pos: usize, is_adding: bool) -> Seq<
    char,
> {
    let bytes = vstd::utf8::encode_utf8(path);
    if is_adding {
        "Adding "@ + path + "..."@
    } else if cursor_pos <= bytes.len() as usize {
        vstd::utf8::decode_utf8(bytes.subrange(0, cursor_pos as int)) + seq!['│']
            + vstd::utf8::decode_utf8(bytes.subrange(cursor_pos as int, bytes.len() as int))
    } else {
        path
    }
}

/// The text of the add-repository dialog's input line.
pub fn add_repo_input_text(path: &str, cursor_pos: usize, is_adding: bool) -> (r: String)
    requires
        !is_adding && cursor_pos <= vstd::utf8::encode_utf8(path@).len() as usize
            ==> vstd::utf8::is_char_boundary(vstd::utf8::encode_utf8(path@), cursor_pos as int),
    ensures
        r@ == add_repo_input_spec(path@, cursor_pos, is_adding),
{
    broadcast use vstd::utf8::encode_utf8_decode_utf8;

    if is_adding {
        return crate::text::join3("Adding ", path, "...");
    }
    if cursor_pos <= path.len() {
        let (before, after) = path.split_at(cursor_pos);
        let mut s = String::from_str(before);
        s.push('│');
        s.append(after);
        assert(before@ == vstd::utf8::decode_utf8(vstd::utf8::encode_utf8(before@)));
        assert(after@ == vstd::utf8::decode_utf8(vstd::utf8::encode_utf8(after@)));
        s
    } else {
        String::from_str(path)
    }
}

/// The message line of the delete-worktree dialog: while the worktree is
/// being deleted, a warning that names the branch; before that, the
/// question with the branch name set off.
pub open spec fn delete_message_spec(branch: Seq<char>, is_deleting: bool) -> Seq<
    (Seq<char>, SegmentStyle),
> {
    if is_deleting {
        seq![("Deleting "@ + branch + "..."@, SegmentStyle::Warning)]
    } else {
        seq![
            ("Delete worktree "@, SegmentStyle::Plain),
            (branch, SegmentStyle::Emphasis),
            ("?"@, SegmentStyle::Plain),
        ]
    }
}

/// The pieces of the delete-worktree dialog's message line.
pub fn delete_dialog_message(branch: &str, is_deleting: bool) -> (r: Vec<LineSegment>)
    ensures
        segments_view(r@) == delete_message_spec(branch@, is_deleting),
{
    let mut spans: Vec<LineSegment> = Vec::new();
    if is_deleting {
        push_segment(&mut spans, crate::text::join3("Deleting ", branch, "..."), SegmentStyle::Warning);
    } else {
        push_segment(&mut spans, String::from_str("Delete worktree "), SegmentStyle::Plain);
        push_segment(&mut spans, String::from_str(branch), SegmentStyle::Emphasis);
        push_segment(&mut spans, String::from_str("?"), SegmentStyle::Plain);
    }
    assert(segments_view(spans@) =~= delete_message_spec(branch@, is_deleting));
    spans
}

/// The title of the terminal panel: how to leave the terminal when it has
/// the focus, how to enter it otherwise, with the key hint or `?`.
pub open spec fn terminal_title_spec(focused: bool, hint: Option<Seq<char>>) -> Seq<char> {
    let key = match hint {
        Some(h) => h,
        None => "?"@,
    };
    if focused {
        " Terminal ["@ + key + ": back] "@
    } else {
        " Terminal ["@ + key + ": focus] "@
    }
}

/// The title of the terminal panel.
pub fn terminal_title(keybindings: &Keybindings, focused: bool) -> (r: String)
    ensures
        exists|hint: Option<Seq<char>>|
            r@ == terminal_title_spec(focused, hint) && match hint {
                Some(h) => is_hint(
                    keybindings@,
                    if focused {
                        Action::UnfocusTerminal
                    } else {
                        Action::FocusTerminal
                    },
                    h,
                ),
                None => !exists|k: crate::keybindings::KeyCombo| #[trigger]
                    keybindings@.contains_key(k) && keybindings@[k] == if focused {
                        Action::UnfocusTerminal
                    } else {
                        Action::FocusTerminal
                    },
            },
{
    let action = if focused {
        Action::UnfocusTerminal
    } else {
        Action::FocusTerminal
    };
    let hint = keybindings.hint_for(action);
    let ghost hint_view: Option<Seq<char>> = if hint is Some {
        Some(hint->0@)
    } else {
        None
    };
    let key = match hint {
        Some(h) => h,
        None => String::from_str("?"),
    };
    let mut title = String::from_str(" Terminal [");
    title.append(key.as_str());
    if focused {
        title.append(": back] ");
    } else {
        title.append(": focus] ");
    }
    assert(title@ =~= terminal_title_spec(focused, hint_view));
    title
}

} // verus!
