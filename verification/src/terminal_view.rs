//! Drawing the terminal's screen into the panel: where each cell, the
//! cursor and the selection land, and which colors and text attributes
//! they get.
use vstd::prelude::*;
use alacritty_terminal::term::color::Colors;
use crate::layout::Rect;

verus! {

#[verifier::external_type_specification]
#[verifier::external_body]
pub struct ExColors(Colors);

/// The colour type that indexing a `Colors` value gives; `palette_entry`
/// reads its fields, and Verus needs the type declared to accept that call.
#[verifier::external_type_specification]
#[verifier::external_body]
pub struct ExAnsiRgb(alacritty_terminal::vte::ansi::Rgb);

/// A 24-bit color.
#[derive(Clone, Copy, Debug, PartialEq, Eq, Structural)]
pub struct TrueColor {
    pub r: u8,
    pub g: u8,
    pub b: u8,
}

/// The named colors of a terminal palette.
#[derive(Clone, Copy, Debug, PartialEq, Eq, Structural)]
pub enum NamedColor {
    Black,
    Red,
    Green,
    Yellow,
    Blue,
    Magenta,
    Cyan,
    White,
    BrightBlack,
    BrightRed,
    BrightGreen,
    BrightYellow,
    BrightBlue,
    BrightMagenta,
    BrightCyan,
    BrightWhite,
    Foreground,
    Background,
    Cursor,
    DimBlack,
    DimRed,
    DimGreen,
    DimYellow,
    DimBlue,
    DimMagenta,
    DimCyan,
    DimWhite,
    BrightForeground,
    DimForeground,
}

/// The color of a terminal cell: a palette name, a direct color, or a
/// palette index.
#[derive(Clone, Copy, Debug, PartialEq, Eq, Structural)]
pub enum TermColor {
    Named(NamedColor),
    Spec(TrueColor),
    Indexed(u8),
}

/// A color of the panel display.
#[derive(Clone, Copy, Debug, PartialEq, Eq, Structural)]
pub enum Color {
    Reset,
    Black,
    Red,
    Green,
    Yellow,
    Blue,
    Magenta,
    Cyan,
    Gray,
    DarkGray,
    LightRed,
    LightGreen,
    LightYellow,
    LightBlue,
    LightMagenta,
    LightCyan,
    White,
    Rgb(u8, u8, u8),
    Indexed(u8),
}

/// The palette position of a named color.
pub open spec fn named_index_spec(n: NamedColor) -> usize {
    match n {
        NamedColor::Black => 0,
        NamedColor::Red => 1,
        NamedColor::Green => 2,
        NamedColor::Yellow => 3,
        NamedColor::Blue => 4,
        NamedColor::Magenta => 5,
        NamedColor::Cyan => 6,
        NamedColor::White => 7,
        NamedColor::BrightBlack => 8,
        NamedColor::BrightRed => 9,
        NamedColor::BrightGreen => 10,
        NamedColor::BrightYellow => 11,
        NamedColor::BrightBlue => 12,
        NamedColor::BrightMagenta => 13,
        NamedColor::BrightCyan => 14,
        NamedColor::BrightWhite => 15,
        NamedColor::Foreground => 256,
        NamedColor::Background => 257,
        NamedColor::Cursor => 258,
        NamedColor::DimBlack => 259,
        NamedColor::DimRed => 260,
        NamedColor::DimGreen => 261,
        NamedColor::DimYellow => 262,
        NamedColor::DimBlue => 263,
        NamedColor::DimMagenta => 264,
        NamedColor::DimCyan => 265,
        NamedColor::DimWhite => 266,
        NamedColor::BrightForeground => 267,
        NamedColor::DimForeground => 268,
    }
}

/// The palette position of a named color.
pub fn named_index(n: NamedColor) -> (r: usize)
    ensures
        r == named_index_spec(n),
        r < 269,
{
    match n {
        NamedColor::Black => 0,
        NamedColor::Red => 1,
        NamedColor::Green => 2,
        NamedColor::Yellow => 3,
        NamedColor::Blue => 4,
        NamedColor::Magenta => 5,
        NamedColor::Cyan => 6,
        NamedColor::White => 7,
        NamedColor::BrightBlack => 8,
        NamedColor::BrightRed => 9,
        NamedColor::BrightGreen => 10,
        NamedColor::BrightYellow => 11,
        NamedColor::BrightBlue => 12,
        NamedColor::BrightMagenta => 13,
        NamedColor::BrightCyan => 14,
        NamedColor::BrightWhite => 15,
        NamedColor::Foreground => 256,
        NamedColor::Background => 257,
        NamedColor::Cursor => 258,
        NamedColor::DimBlack => 259,
        NamedColor::DimRed => 260,
        NamedColor::DimGreen => 261,
        NamedColor::DimYellow => 262,
        NamedColor::DimBlue => 263,
        NamedColor::DimMagenta => 264,
        NamedColor::DimCyan => 265,
        NamedColor::DimWhite => 266,
        NamedColor::BrightForeground => 267,
        NamedColor::DimForeground => 268,
    }
}

/// The display color of a named color that the palette leaves unset.
pub open spec fn named_color_fallback_spec(n: NamedColor) -> Color {
    match n {
        NamedColor::Black => Color::Black,
        NamedColor::Red => Color::Red,
        NamedColor::Green => Color::Green,
        NamedColor::Yellow => Color::Yellow,
        NamedColor::Blue => Color::Blue,
        NamedColor::Magenta => Color::Magenta,
        NamedColor::Cyan => Color::Cyan,
        NamedColor::White => Color::White,
        NamedColor::BrightBlack => Color::DarkGray,
        NamedColor::BrightRed => Color::LightRed,
        NamedColor::BrightGreen => Color::LightGreen,
        NamedColor::BrightYellow => Color::LightYellow,
        NamedColor::BrightBlue => Color::LightBlue,
        NamedColor::BrightMagenta => Color::LightMagenta,
        NamedColor::BrightCyan => Color::LightCyan,
        NamedColor::BrightWhite => Color::White,
        NamedColor::Foreground => Color::Rgb(0xdd, 0xdd, 0xdd),
        NamedColor::BrightForeground => Color::Rgb(0xdd, 0xdd, 0xdd),
        NamedColor::DimForeground => Color::Rgb(0xdd, 0xdd, 0xdd),
        NamedColor::Background => Color::Rgb(0x00, 0x00, 0x00),
        NamedColor::Cursor => Color::Rgb(0xdd, 0xdd, 0xdd),
        _ => Color::Reset,
    }
}

/// The display color of a named color that the palette leaves unset: the
/// sixteen ANSI colors map to the display's own, foreground and cursor to
/// light gray, background to black, the dim colors to the default.
pub fn named_color_fallback(n: NamedColor) -> (r: Color)
    ensures
        r == named_color_fallback_spec(n),
{
    match n {
        NamedColor::Black => Color::Black,
        NamedColor::Red => Color::Red,
        NamedColor::Green => Color::Green,
        NamedColor::Yellow => Color::Yellow,
        NamedColor::Blue => Color::Blue,
        NamedColor::Magenta => Color::Magenta,
        NamedColor::Cyan => Color::Cyan,
        NamedColor::White => Color::White,
        NamedColor::BrightBlack => Color::DarkGray,
        NamedColor::BrightRed => Color::LightRed,
        NamedColor::BrightGreen => Color::LightGreen,
        NamedColor::BrightYellow => Color::LightYellow,
        NamedColor::BrightBlue => Color::LightBlue,
        NamedColor::BrightMagenta => Color::LightMagenta,
        NamedColor::BrightCyan => Color::LightCyan,
        NamedColor::BrightWhite => Color::White,
        NamedColor::Foreground | NamedColor::BrightForeground | NamedColor::DimForeground => {
            Color::Rgb(0xdd, 0xdd, 0xdd)
        },
        NamedColor::Background => Color::Rgb(0x00, 0x00, 0x00),
        NamedColor::Cursor => Color::Rgb(0xdd, 0xdd, 0xdd),
        _ => Color::Reset,
    }
}

/// What a terminal palette holds, position by position.
pub uninterp spec fn palette(colors: Colors) -> Seq<Option<TrueColor>>;

/// Reads a palette position with `Colors`' indexing. Its result is named
/// by the palette's contents `palette`; nothing else is stated of it.
#[verifier::external_body]
fn palette_entry(colors: &Colors, index: usize) -> (r: Option<TrueColor>)
    requires
        index < 269,
    ensures
        r == palette(*colors)[index as int],
{
    colors[index].map(|c| TrueColor { r: c.r, g: c.g, b: c.b })
}

/// The display color of a cell color, given what the palette holds at its
/// position (`entry`, unused for a direct color): a set palette entry wins,
/// otherwise named colors fall back to the display's colors and palette
/// indexes stay indexes.
pub open spec fn resolve_color_spec(color: TermColor, entry: Option<TrueColor>) -> Color {
    match color {
        TermColor::Named(n) => match entry {
            Some(c) => Color::Rgb(c.r, c.g, c.b),
            None => named_color_fallback_spec(n),
        },
        TermColor::Spec(c) => Color::Rgb(c.r, c.g, c.b),
        TermColor::Indexed(i) => match entry {
            Some(c) => Color::Rgb(c.r, c.g, c.b),
            None => Color::Indexed(i),
        },
    }
}

/// The display color of a cell color, given the palette entry at its
/// position.
pub fn resolve_color(color: TermColor, entry: Option<TrueColor>) -> (r: Color)
    ensures
        r == resolve_color_spec(color, entry),
{
    match color {
        TermColor::Named(n) => match entry {
            Some(c) => Color::Rgb(c.r, c.g, c.b),
            None => named_color_fallback(n),
        },
        TermColor::Spec(c) => Color::Rgb(c.r, c.g, c.b),
        TermColor::Indexed(i) => match entry {
            Some(c) => Color::Rgb(c.r, c.g, c.b),
            None => Color::Indexed(i),
        },
    }
}

/// The palette entry that a cell color is looked up in.
pub open spec fn palette_lookup(colors: Colors, color: TermColor) -> Option<TrueColor> {
    match color {
        TermColor::Named(n) => palette(colors)[named_index_spec(n) as int],
        TermColor::Spec(_) => None,
        TermColor::Indexed(i) => palette(colors)[i as int],
    }
}

/// The display color of a cell color under a terminal palette.
pub fn convert_color(color: TermColor, colors: &Colors) -> (r: Color)
    ensures
        r == resolve_color_spec(color, palette_lookup(*colors, color)),
{
    let entry = match color {
        TermColor::Named(n) => palette_entry(colors, named_index(n)),
        TermColor::Spec(_) => None,
        TermColor::Indexed(i) => palette_entry(colors, i as usize),
    };
    resolve_color(color, entry)
}

/// The attributes of a terminal cell that the panel draws.
#[derive(Clone, Copy, Debug, PartialEq, Eq, Structural)]
pub struct CellFlags {
    pub inverse: bool,
    pub bold: bool,
    pub italic: bool,
    pub underlined: bool,
    pub strikeout: bool,
    pub dim: bool,
    pub hidden: bool,
    pub wide_char_spacer: bool,
    pub leading_wide_char_spacer: bool,
}

/// Text attributes of a drawn cell.
#[derive(Clone, Copy, Debug, PartialEq, Eq, Structural)]
pub struct TextModifiers {
    pub bold: bool,
    pub italic: bool,
    pub underlined: bool,
    pub crossed_out: bool,
    pub dim: bool,
    pub hidden: bool,
}

/// How a cell is drawn.
#[derive(Clone, Copy, Debug, PartialEq, Eq, Structural)]
pub struct CellStyle {
    pub fg: Color,
    pub bg: Color,
    pub modifiers: TextModifiers,
}

/// A cell to draw: where, which character, how.
#[derive(Clone, Copy, Debug, PartialEq, Eq, Structural)]
pub struct CellDraw {
    pub x: u16,
    pub y: u16,
    pub ch: char,
    pub style: CellStyle,
}

/// The panel position of a terminal cell, if it shows: its line is moved
/// down by the scroll offset, and it must fall inside the panel.
pub open spec fn cell_position_spec(column: usize, line: i32, display_offset: usize, area: Rect) -> Option<
    (u16, u16),
> {
    let col = column as u16;
    let vline = line + (display_offset as i32);
    if vline < 0 {
        None
    } else {
        let row = vline as u16;
        if col >= area.width || row >= area.height {
            None
        } else {
            Some(((area.x + col) as u16, (area.y + row) as u16))
        }
    }
}

/// The line offset fits the line numbers of the screen.
pub open spec fn offset_fits(line: i32, display_offset: usize) -> bool {
    i32::MIN <= line + (display_offset as i32) <= i32::MAX
}

/// The panel position of a terminal cell, if it shows.
pub fn cell_position(column: usize, line: i32, display_offset: usize, area: Rect) -> (r: Option<
    (u16, u16),
>)
    requires
        crate::layout::on_screen(area),
        offset_fits(line, display_offset),
    ensures
        r == cell_position_spec(column, line, display_offset, area),
{
    let col = column as u16;
    let vline = line + display_offset as i32;
    if vline < 0 {
        return None;
    }
    let row = vline as u16;
    if col >= area.width || row >= area.height {
        return None;
    }
    Some((area.x + col, area.y + row))
}

/// How a cell is drawn, or `None` for the spacer cells of wide characters:
/// its colors swap when it is inverse, and each attribute becomes the
/// matching text modifier.
pub open spec fn cell_style_spec(fg: Color, bg: Color, flags: CellFlags) -> Option<CellStyle> {
    if flags.wide_char_spacer || flags.leading_wide_char_spacer {
        None
    } else {
        Some(
            CellStyle {
                fg: if flags.inverse {
                    bg
                } else {
                    fg
                },
                bg: if flags.inverse {
                    fg
                } else {
                    bg
                },
                modifiers: TextModifiers {
                    bold: flags.bold,
                    italic: flags.italic,
                    underlined: flags.underlined,
                    crossed_out: flags.strikeout,
                    dim: flags.dim,
                    hidden: flags.hidden,
                },
            },
        )
    }
}

/// The character drawn for a cell: a NUL cell shows as a space.
pub open spec fn cell_char_spec(c: char) -> char {
    if c == ' ' || c == '\0' {
        ' '
    } else {
        c
    }
}

/// The cell to draw for a terminal cell, if any: it must show in the panel
/// and not be the spacer of a wide character.
pub open spec fn draw_cell_spec(
    column: usize,
    line: i32,
    display_offset: usize,
    area: Rect,
    c: char,
    fg: Color,
    bg: Color,
    flags: CellFlags,
) -> Option<CellDraw> {
    match cell_position_spec(column, line, display_offset, area) {
        None => None,
        Some(p) => match cell_style_spec(fg, bg, flags) {
            None => None,
            Some(style) => Some(CellDraw { x: p.0, y: p.1, ch: cell_char_spec(c), style }),
        },
    }
}

/// The cell to draw for a terminal cell with character `c`, colors
/// `fg`/`bg` and attributes `flags`, under the terminal palette.
pub fn draw_cell(
    column: usize,
    line: i32,
    display_offset: usize,
    area: Rect,
    c: char,
    fg: TermColor,
    bg: TermColor,
    flags: CellFlags,
    colors: &Colors,
) -> (r: Option<CellDraw>)
    requires
        crate::layout::on_screen(area),
        offset_fits(line, display_offset),
    ensures
        r == draw_cell_spec(
            column,
            line,
            display_offset,
            area,
            c,
            resolve_color_spec(fg, palette_lookup(*colors, fg)),
            resolve_color_spec(bg, palette_lookup(*colors, bg)),
            flags,
        ),
{
    let pos = match cell_position(column, line, display_offset, area) {
        Some(p) => p,
        None => return None,
    };
    if flags.wide_char_spacer || flags.leading_wide_char_spacer {
        return None;
    }
    let fg_color = convert_color(fg, colors);
    let bg_color = convert_color(bg, colors);
    let (fg_drawn, bg_drawn) = if flags.inverse {
        (bg_color, fg_color)
    } else {
        (fg_color, bg_color)
    };
    let modifiers = TextModifiers {
        bold: flags.bold,
        italic: flags.italic,
        underlined: flags.underlined,
        crossed_out: flags.strikeout,
        dim: flags.dim,
        hidden: flags.hidden,
    };
    let ch = if c == ' ' || c == '\0' {
        ' '
    } else {
        c
    };
    Some(
        CellDraw {
            x: pos.0,
            y: pos.1,
            ch,
            style: CellStyle { fg: fg_drawn, bg: bg_drawn, modifiers },
        },
    )
}

/// The panel position of the cursor, if it shows: the terminal shows it,
/// and it falls inside the panel after the scroll offset.
pub open spec fn cursor_position_spec(
    column: usize,
    line: i32,
    display_offset: usize,
    area: Rect,
    show_cursor: bool,
) -> Option<(u16, u16)> {
    let cx = column as u16;
    let vline = line + (display_offset as i32);
    if vline >= 0 && show_cursor {
        let cy = vline as u16;
        if cx < area.width && cy < area.height {
            Some(((area.x + cx) as u16, (area.y + cy) as u16))
        } else {
            None
        }
    } else {
        None
    }
}

/// The panel position of the cursor, if it shows.
pub fn cursor_position(
    column: usize,
    line: i32,
    display_offset: usize,
    area: Rect,
    show_cursor: bool,
) -> (r: Option<(u16, u16)>)
    requires
        crate::layout::on_screen(area),
        offset_fits(line, display_offset),
    ensures
        r == cursor_position_spec(column, line, display_offset, area, show_cursor),
{
    let cx = column as u16;
    let vline = line + display_offset as i32;
    if vline >= 0 && show_cursor {
        let cy = vline as u16;
        if cx < area.width && cy < area.height {
            return Some((area.x + cx, area.y + cy));
        }
    }
    None
}

/// The cursor is drawn as an inverted block: the colors of the cell under
/// it swap, an unset or default foreground counting as black and an unset
/// or default background as white. Gives (foreground, background).
pub open spec fn cursor_colors_spec(fg: Option<Color>, bg: Option<Color>) -> (Color, Color) {
    let f = match fg {
        Some(Color::Reset) | None => Color::Black,
        Some(c) => c,
    };
    let b = match bg {
        Some(Color::Reset) | None => Color::White,
        Some(c) => c,
    };
    (b, f)
}

/// The colors of the cursor block over a cell drawn with `fg` and `bg`.
pub fn cursor_colors(fg: Option<Color>, bg: Option<Color>) -> (r: (Color, Color))
    ensures
        r == cursor_colors_spec(fg, bg),
{
    let f = match fg {
        Some(Color::Reset) | None => Color::Black,
        Some(c) => c,
    };
    let b = match bg {
        Some(Color::Reset) | None => Color::White,
        Some(c) => c,
    };
    (b, f)
}

/// The cells of one line of a selection: the panel row, and the first and
/// last panel columns, both included.
#[derive(Clone, Copy, Debug, PartialEq, Eq, Structural)]
pub struct SelectionSpan {
    pub y: u16,
    pub x_first: u16,
    pub x_last: u16,
}

/// The part of one terminal line that a selection covers in the panel.
/// A block selection covers the same columns on every line; otherwise the
/// first line starts at the start column, the last ends at the end column
/// and the lines between cover the whole width. Lines scrolled out of the
/// panel, and empty column ranges, give `None`.
pub open spec fn selection_span_spec(
    line: i32,
    start_line: i32,
    start_column: usize,
    end_line: i32,
    end_column: usize,
    is_block: bool,
    display_offset: usize,
    area: Rect,
) -> Option<SelectionSpan> {
    let vline = line + (display_offset as i32);
    if vline < 0 {
        None
    } else {
        let row = vline as u16;
        if row >= area.height {
            None
        } else {
            let col_start: u16 = if is_block || line == start_line {
                start_column as u16
            } else {
                0
            };
            let last_col = crate::layout::sat_sub(area.width, 1);
            let col_end: u16 = if is_block || line == end_line {
                end_column as u16
            } else {
                last_col
            };
            let col_stop = crate::layout::min_u16(col_end, last_col);
            if col_start > col_stop {
                None
            } else {
                Some(
                    SelectionSpan {
                        y: (area.y + row) as u16,
                        x_first: (area.x + col_start) as u16,
                        x_last: (area.x + col_stop) as u16,
                    },
                )
            }
        }
    }
}

/// The part of terminal line `line` that the selection from
/// (`start_line`, `start_column`) to (`end_line`, `end_column`) covers.
pub fn selection_span(
    line: i32,
    start_line: i32,
    start_column: usize,
    end_line: i32,
    end_column: usize,
    is_block: bool,
    display_offset: usize,
    area: Rect,
) -> (r: Option<SelectionSpan>)
    requires
        crate::layout::on_screen(area),
        offset_fits(line, display_offset),
    ensures
        r == selection_span_spec(
            line,
            start_line,
            start_column,
            end_line,
            end_column,
            is_block,
            display_offset,
            area,
        ),
{
    let vline = line + display_offset as i32;
    if vline < 0 {
        return None;
    }
    let row = vline as u16;
    if row >= area.height {
        return None;
    }
    let col_start: u16 = if is_block || line == start_line {
        start_column as u16
    } else {
        0
    };
    let last_col = area.width.saturating_sub(1);
    let col_end: u16 = if is_block || line == end_line {
        end_column as u16
    } else {
        last_col
    };
    let col_stop = if col_end <= last_col {
        col_end
    } else {
        last_col
    };
    if col_start > col_stop {
        return None;
    }
    Some(SelectionSpan { y: area.y + row, x_first: area.x + col_start, x_last: area.x + col_stop })
}

/// Every drawn cell, cursor and selection cell lies inside the panel.
pub proof fn law_drawing_stays_in_panel(
    column: usize,
    line: i32,
    display_offset: usize,
    area: Rect,
    show_cursor: bool,
    start_line: i32,
    start_column: usize,
    end_line: i32,
    end_column: usize,
    is_block: bool,
)
    requires
        crate::layout::on_screen(area),
    ensures
        cell_position_spec(column, line, display_offset, area) matches Some(p) ==> area.x <= p.0
            < area.x + area.width && area.y <= p.1 < area.y + area.height,
        cursor_position_spec(column, line, display_offset, area, show_cursor) matches Some(p)
            ==> area.x <= p.0 < area.x + area.width && area.y <= p.1 < area.y + area.height,
        selection_span_spec(
            line,
            start_line,
            start_column,
            end_line,
            end_column,
            is_block,
            display_offset,
            area,
        ) matches Some(s) ==> area.y <= s.y < area.y + area.height && area.x <= s.x_first
            <= s.x_last && (area.width > 0 ==> s.x_last < area.x + area.width),
{
}

/// A cell or the cursor shows at its column, on the row of its line moved
/// down by the scroll offset: when that row is inside the panel and the
/// column is inside it too, the position is the panel's corner plus the
/// column and that row; a row above the panel or below it (within the
/// 16-bit rows a screen has), or a hidden cursor, shows nothing.
pub proof fn law_positions_follow_scroll_offset(
    column: usize,
    line: i32,
    display_offset: usize,
    area: Rect,
    show_cursor: bool,
)
    requires
        crate::layout::on_screen(area),
        display_offset <= i32::MAX,
        offset_fits(line, display_offset),
    ensures
        0 <= line + display_offset < area.height && column < area.width ==> cell_position_spec(
            column,
            line,
            display_offset,
            area,
        ) == Some(((area.x + column) as u16, (area.y + line + display_offset) as u16)),
        show_cursor && 0 <= line + display_offset < area.height && column < area.width
            ==> cursor_position_spec(column, line, display_offset, area, show_cursor) == Some(
            ((area.x + column) as u16, (area.y + line + display_offset) as u16),
        ),
        line + display_offset < 0 || area.height <= line + display_offset <= u16::MAX
            ==> cell_position_spec(
            column,
            line,
            display_offset,
            area,
        ) is None && cursor_position_spec(column, line, display_offset, area, show_cursor) is None,
        !show_cursor ==> cursor_position_spec(column, line, display_offset, area, show_cursor) is None,
{
}

/// A drawn cell copies the cell's attributes one for one into its text
/// modifiers (bold, italic, underlined, struck out, dim, hidden), swaps
/// its colors exactly when it is inverse, and shows the cell's character,
/// a NUL as a space. Every cell inside the panel that is not the spacer of
/// a wide character is drawn.
pub proof fn law_drawn_cell_keeps_attributes(
    column: usize,
    line: i32,
    display_offset: usize,
    area: Rect,
    c: char,
    fg: Color,
    bg: Color,
    flags: CellFlags,
)
    requires
        crate::layout::on_screen(area),
        offset_fits(line, display_offset),
    ensures
        draw_cell_spec(column, line, display_offset, area, c, fg, bg, flags) matches Some(d) ==> {
            &&& d.style.modifiers.bold == flags.bold
            &&& d.style.modifiers.italic == flags.italic
            &&& d.style.modifiers.underlined == flags.underlined
            &&& d.style.modifiers.crossed_out == flags.strikeout
            &&& d.style.modifiers.dim == flags.dim
            &&& d.style.modifiers.hidden == flags.hidden
            &&& (flags.inverse ==> d.style.fg == bg && d.style.bg == fg)
            &&& (!flags.inverse ==> d.style.fg == fg && d.style.bg == bg)
            &&& (c != '\0' ==> d.ch == c)
            &&& (c == '\0' ==> d.ch == ' ')
            &&& Some((d.x, d.y)) == cell_position_spec(column, line, display_offset, area)
        },
        (!flags.wide_char_spacer && !flags.leading_wide_char_spacer && cell_position_spec(
            column,
            line,
            display_offset,
            area,
        ) is Some) <==> draw_cell_spec(column, line, display_offset, area, c, fg, bg, flags) is Some,
{
}

/// A selection line covers, within the panel's width, from the start
/// column on the start line (column 0 on later lines) to the end column on
/// the end line (the last column on earlier lines); a block selection
/// covers the start to the end column on every line. So a selection on one
/// line covers exactly its start to its end column.
pub proof fn law_selection_columns(
    line: i32,
    start_line: i32,
    start_column: usize,
    end_line: i32,
    end_column: usize,
    is_block: bool,
    display_offset: usize,
    area: Rect,
)
    requires
        crate::layout::on_screen(area),
        display_offset <= i32::MAX,
        offset_fits(line, display_offset),
        0 <= line + display_offset < area.height,
        area.width > 0,
        start_column <= u16::MAX,
        end_column <= u16::MAX,
    ensures
        ({
            let first: int = if is_block || line == start_line {
                start_column as int
            } else {
                0
            };
            let last_wanted: int = if is_block || line == end_line {
                end_column as int
            } else {
                area.width - 1
            };
            let last: int = if last_wanted < area.width - 1 {
                last_wanted
            } else {
                area.width - 1
            };
            let r = selection_span_spec(
                line,
                start_line,
                start_column,
                end_line,
                end_column,
                is_block,
                display_offset,
                area,
            );
            &&& first <= last ==> r == Some(
                SelectionSpan {
                    y: (area.y + line + display_offset) as u16,
                    x_first: (area.x + first) as u16,
                    x_last: (area.x + last) as u16,
                },
            )
            &&& first > last ==> r is None
        }),
        line == start_line && line == end_line && start_column <= end_column && end_column
            < area.width ==> selection_span_spec(
            line,
            start_line,
            start_column,
            end_line,
            end_column,
            is_block,
            display_offset,
            area,
        ) == Some(
            SelectionSpan {
                y: (area.y + line + display_offset) as u16,
                x_first: (area.x + start_column) as u16,
                x_last: (area.x + end_column) as u16,
            },
        ),
{
}

/// A direct color is drawn as itself. A palette index or a named color
/// whose palette entry is set is drawn in that entry's color; an unset
/// palette index stays a palette index of the display.
pub proof fn law_palette_entry_wins(color: TermColor, colors: Colors)
    ensures
        color matches TermColor::Spec(c) ==> resolve_color_spec(color, palette_lookup(colors, color))
            == Color::Rgb(c.r, c.g, c.b),
        color matches TermColor::Indexed(i) ==> (palette(colors)[i as int] matches Some(c)
            ==> resolve_color_spec(color, palette_lookup(colors, color)) == Color::Rgb(
            c.r,
            c.g,
            c.b,
        )),
        color matches TermColor::Indexed(i) ==> (palette(colors)[i as int] is None
            ==> resolve_color_spec(color, palette_lookup(colors, color)) == Color::Indexed(i)),
        color matches TermColor::Named(n) ==> (palette_lookup(colors, color) matches Some(c)
            ==> resolve_color_spec(color, palette_lookup(colors, color)) == Color::Rgb(
            c.r,
            c.g,
            c.b,
        )),
{
}

/// The cursor block swaps the colors of the cell under it: its foreground
/// is the cell's background and its background the cell's foreground, an
/// unset or default foreground counting as black and an unset or default
/// background as white.
pub proof fn law_cursor_swaps_colors(fg: Option<Color>, bg: Option<Color>)
    ensures
        fg matches Some(f) ==> (f != Color::Reset ==> cursor_colors_spec(fg, bg).1 == f),
        (fg is None || fg == Some(Color::Reset)) ==> cursor_colors_spec(fg, bg).1 == Color::Black,
        bg matches Some(b) ==> (b != Color::Reset ==> cursor_colors_spec(fg, bg).0 == b),
        (bg is None || bg == Some(Color::Reset)) ==> cursor_colors_spec(fg, bg).0 == Color::White,
{
}

} // verus!
