use std::collections::HashMap;

use gitopiary::config::{default_refresh_interval, shell_or_default, Config};
use gitopiary::git_command::command_outcome;
use gitopiary::github::{prs_from_listing, GhPullRequest, PrInfo};
use gitopiary::keybindings::{BindingError, Keybindings};
use gitopiary::keys::{
    format_key, normalize_key, parse_action, parse_key, parse_key_name_lowered, split_modifier, Action,
    ActionErrorKind, KeyCode, KeyErrorKind, KeyModifiers, MediaKeyCode, ModifierKeyCode,
};
use gitopiary::layout::{
    add_repo_input_text, bordered_inner, delete_dialog_message, dialog_area, dialog_layout, panel_layout, terminal_title,
    Rect,
};
use gitopiary::session::is_idle_at;
use gitopiary::terminal_view::{
    convert_color, cursor_colors, cursor_position, draw_cell, named_color_fallback,
    selection_span, CellFlags, Color, NamedColor, SelectionSpan, TermColor, TrueColor,
};
use gitopiary::text::{decimal_string, parse_u8, trim};
use gitopiary::worktree_panel::{
    digit_count, fit_branch, list_lines, repo_header, stats_display_width, worktree_line, ListRow,
    PrBadge, PrState, SegmentStyle, WorktreeRow, WorktreeStatus,
};

fn overrides(pairs: &[(&str, &str)]) -> HashMap<String, String> {
    pairs.iter().map(|(k, v)| (k.to_string(), v.to_string())).collect()
}

fn no_flags() -> CellFlags {
    CellFlags {
        inverse: false,
        bold: false,
        italic: false,
        underlined: false,
        strikeout: false,
        dim: false,
        hidden: false,
        wide_char_spacer: false,
        leading_wide_char_spacer: false,
    }
}

fn row(branch: &str, dirty: Option<usize>, ahead: usize, behind: usize, pr: Option<PrBadge>) -> WorktreeRow {
    WorktreeRow {
        branch: branch.to_string(),
        status: WorktreeStatus {
            is_dirty: dirty.is_some(),
            uncommitted_changes: dirty.unwrap_or(0),
            ahead,
            behind,
        },
        pr,
    }
}

// --- text helpers ---

#[test]
fn trim_removes_unicode_whitespace() {
    assert_eq!(trim("\u{3000}\t quit \u{2003}\n"), "quit");
    assert_eq!(trim("   "), "");
    assert_eq!(trim("a b"), "a b");
}

#[test]
fn parse_u8_follows_from_str() {
    assert_eq!(parse_u8("12"), Some(12));
    assert_eq!(parse_u8("+5"), Some(5));
    assert_eq!(parse_u8("007"), Some(7));
    assert_eq!(parse_u8("255"), Some(255));
    assert_eq!(parse_u8("256"), None);
    assert_eq!(parse_u8(""), None);
    assert_eq!(parse_u8("+"), None);
    assert_eq!(parse_u8("-1"), None);
    assert_eq!(parse_u8("1a"), None);
    assert_eq!(parse_u8("00000000000000000001"), Some(1));
}

#[test]
fn decimal_string_writes_digits() {
    assert_eq!(decimal_string(0), "0");
    assert_eq!(decimal_string(1234), "1234");
    assert_eq!(decimal_string(u64::MAX), "18446744073709551615");
}

// --- keys ---

#[test]
fn parse_key_reads_uppercase_names_through_lowercasing() {
    assert_eq!(parse_key("ENTER").unwrap(), (KeyCode::Enter, KeyModifiers::none()));
    assert_eq!(parse_key("Alt+F3").unwrap(), (KeyCode::F(3), KeyModifiers::alt()));
    // U+212A KELVIN SIGN lowercases to an ASCII 'k'.
    assert_eq!(parse_key("bac\u{212A}space").unwrap(), (KeyCode::Backspace, KeyModifiers::none()));
}

#[test]
fn parse_key_function_key_number_forms() {
    assert_eq!(parse_key("F05").unwrap().0, KeyCode::F(5));
    assert_eq!(parse_key("f0000000000012").unwrap().0, KeyCode::F(12));
    assert_eq!(parse_key("f999").unwrap_err().kind, KeyErrorKind::InvalidFunctionKey);
    assert_eq!(parse_key("f13").unwrap_err().kind, KeyErrorKind::FunctionKeyOutOfRange);
    assert_eq!(parse_key("fx").unwrap_err().kind, KeyErrorKind::InvalidFunctionKey);
}

#[test]
fn parse_key_error_kinds_and_messages() {
    let e = parse_key("   ").unwrap_err();
    assert_eq!(e.kind, KeyErrorKind::EmptyKey);
    assert_eq!(e.message(), "empty key string");
    let e = parse_key("Super+a").unwrap_err();
    assert_eq!(e.kind, KeyErrorKind::UnknownModifier);
    assert_eq!(e.message(), "unknown modifier: 'super'");
    let e = parse_key("ctrl+shift+a").unwrap_err();
    assert_eq!(e.kind, KeyErrorKind::TooManyModifiers);
    assert_eq!(
        e.message(),
        "invalid key string 'ctrl+shift+a': only one modifier is supported (e.g., 'ctrl+a', not 'ctrl+shift+a')"
    );
    let e = parse_key("banana").unwrap_err();
    assert_eq!(e.kind, KeyErrorKind::UnknownKey);
    assert_eq!(e.message(), "unknown key: 'banana'");
    let e = parse_key("é").unwrap_err();
    assert_eq!(e.kind, KeyErrorKind::UnknownKey);
    let e = parse_key("f0").unwrap_err();
    assert_eq!(e.message(), "function key out of range: 'f0'");
    let e = parse_key("\u{212A}").unwrap_err();
    assert_eq!(e.kind, KeyErrorKind::UnsupportedKey);
    assert_eq!(e.message(), "unsupported key: '\u{212A}'");
}

#[test]
fn split_modifier_parts() {
    let (m, rest) = split_modifier("CTRL+x").unwrap();
    assert_eq!(m, KeyModifiers::control());
    assert_eq!(rest, "x");
    let (m, rest) = split_modifier("x").unwrap();
    assert_eq!(m, KeyModifiers::none());
    assert_eq!(rest, "x");
}

#[test]
fn parse_key_name_lowered_uses_lowercase_for_names_and_raw_for_chars() {
    assert_eq!(parse_key_name_lowered("TAB", "tab").unwrap(), KeyCode::Tab);
    assert_eq!(parse_key_name_lowered("Q", "q").unwrap(), KeyCode::Char('Q'));
}

#[test]
fn parse_action_error_kinds_and_messages() {
    let e = parse_action("  ").unwrap_err();
    assert_eq!(e.kind, ActionErrorKind::EmptyAction);
    assert_eq!(e.message(), "empty action string");
    let e = parse_action(" fly ").unwrap_err();
    assert_eq!(e.kind, ActionErrorKind::UnknownAction);
    assert_eq!(e.message(), "unknown action: 'fly'");
}

#[test]
fn normalize_key_canonical_forms() {
    let shift_a = (KeyCode::Char('a'), KeyModifiers::shift());
    assert_eq!(normalize_key(KeyCode::Char('A'), KeyModifiers::none()), shift_a);
    assert_eq!(normalize_key(KeyCode::Char('A'), KeyModifiers::shift()), shift_a);
    assert_eq!(normalize_key(KeyCode::Char('a'), KeyModifiers::shift()), shift_a);
    assert_eq!(
        normalize_key(KeyCode::Char('Z'), KeyModifiers::control()),
        (KeyCode::Char('z'), KeyModifiers::control().union(KeyModifiers::shift()))
    );
    assert_eq!(normalize_key(KeyCode::Char('1'), KeyModifiers::none()), (KeyCode::Char('1'), KeyModifiers::none()));
}

#[test]
fn format_key_other_keys() {
    assert_eq!(format_key(KeyCode::PageUp, KeyModifiers::none()), "PageUp");
    assert_eq!(format_key(KeyCode::Media(MediaKeyCode::Play), KeyModifiers::none()), "Media(Play)");
    assert_eq!(
        format_key(KeyCode::Modifier(ModifierKeyCode::LeftShift), KeyModifiers::alt()),
        "Alt+Modifier(LeftShift)"
    );
    assert_eq!(format_key(KeyCode::F(12), KeyModifiers::control()), "Ctrl+F12");
    assert_eq!(format_key(KeyCode::Char('a'), KeyModifiers::control().union(KeyModifiers::alt()).union(KeyModifiers::shift())), "Ctrl+Alt+Shift+A");
}

#[test]
fn formatted_keys_read_back() {
    let mods = [KeyModifiers::none(), KeyModifiers::control(), KeyModifiers::alt(), KeyModifiers::shift()];
    let mut codes = vec![
        KeyCode::Enter, KeyCode::Tab, KeyCode::Up, KeyCode::Down, KeyCode::Left, KeyCode::Right,
        KeyCode::Esc, KeyCode::Backspace, KeyCode::Delete, KeyCode::Home, KeyCode::End,
        KeyCode::Char(' '), KeyCode::Char('a'), KeyCode::Char('Q'), KeyCode::Char('7'),
        KeyCode::Char('f'), KeyCode::Char('-'), KeyCode::Char('~'),
    ];
    for n in 1..=12u8 {
        codes.push(KeyCode::F(n));
    }
    for m in mods {
        for code in &codes {
            let text = format_key(*code, m);
            let (c2, m2) = parse_key(&text).unwrap();
            assert_eq!(m2, m);
            assert_eq!(normalize_key(c2, m2), normalize_key(*code, m));
        }
    }
    assert_eq!(format_key(KeyCode::Char('a'), KeyModifiers::shift()), "Shift+A");
    assert_eq!(parse_key("Shift+A").unwrap(), (KeyCode::Char('A'), KeyModifiers::shift()));
}

// --- key map ---

#[test]
fn binding_error_messages_name_the_entry() {
    let err = Keybindings::from_config(&overrides(&[("banana", "quit")])).err().unwrap();
    assert_eq!(err.message(), "invalid keybinding 'banana': unknown key: 'banana'");
    let err = Keybindings::from_config(&overrides(&[("x", "fly_away")])).err().unwrap();
    assert!(matches!(err, BindingError::InvalidAction { .. }));
    assert_eq!(err.message(), "invalid action for 'x': unknown action: 'fly_away'");
}

#[test]
fn from_entries_reports_first_bad_entry() {
    let entries = vec![
        ("x".to_string(), "quit".to_string()),
        ("banana".to_string(), "refresh".to_string()),
        ("y".to_string(), "nope".to_string()),
    ];
    let err = Keybindings::from_entries(&entries).err().unwrap();
    assert_eq!(err.message(), "invalid keybinding 'banana': unknown key: 'banana'");
}

#[test]
fn from_entries_later_entry_for_same_key_wins() {
    // "A" and "shift+a" are the same key once in canonical form.
    let entries = vec![
        ("A".to_string(), "quit".to_string()),
        ("shift+a".to_string(), "refresh".to_string()),
    ];
    let kb = Keybindings::from_entries(&entries).unwrap();
    assert_eq!(kb.get(KeyCode::Char('a'), KeyModifiers::shift()), Some(&Action::Refresh));
    assert_eq!(kb.get(KeyCode::Char('A'), KeyModifiers::none()), Some(&Action::Refresh));
    // Quit was named, so its defaults are gone; Ctrl+C is put back.
    assert_eq!(kb.get(KeyCode::Char('q'), KeyModifiers::none()), None);
    assert_eq!(kb.get(KeyCode::Char('c'), KeyModifiers::control()), Some(&Action::Quit));
    assert_eq!(kb.hint_for(Action::Quit), Some("Ctrl+c".to_string()));
}

#[test]
fn every_action_has_a_default_hint() {
    let kb = Keybindings::default();
    assert_eq!(kb.hint_for(Action::MoveDown), Some("j".to_string()));
    assert_eq!(kb.hint_for(Action::FocusTerminal), Some("Enter".to_string()));
    assert_eq!(kb.hint_for(Action::AddRepo), Some("Shift+A".to_string()));
    assert_eq!(kb.hint_for(Action::Quit), Some("q".to_string()));
}

#[test]
fn unbind_action_removes_only_that_action() {
    let mut kb = Keybindings::default();
    kb.unbind_action(Action::Quit);
    assert_eq!(kb.get(KeyCode::Char('q'), KeyModifiers::none()), None);
    assert_eq!(kb.get(KeyCode::Char('c'), KeyModifiers::control()), None);
    assert_eq!(kb.get(KeyCode::Char('j'), KeyModifiers::none()), Some(&Action::MoveDown));
}

// --- worktree panel ---

#[test]
fn digit_count_counts_decimal_digits() {
    assert_eq!(digit_count(0), 1);
    assert_eq!(digit_count(9), 1);
    assert_eq!(digit_count(10), 2);
    assert_eq!(digit_count(999), 3);
    assert_eq!(digit_count(1000), 4);
    assert_eq!(digit_count(u64::MAX), 20);
}

#[test]
fn fit_branch_cuts_with_ellipsis() {
    assert_eq!(fit_branch("feature/long-name", 8), "feature…");
    assert_eq!(fit_branch("main", 4), "main");
    assert_eq!(fit_branch("main", 10), "main");
    assert_eq!(fit_branch("main", 0), "");
    assert_eq!(fit_branch("main", 1), "…");
}

#[test]
fn stats_width_counts_every_figure() {
    let pr = PrBadge { number: 123, state: PrState::Open, is_draft: true };
    let wt = row("main", Some(12), 3, 0, Some(pr));
    // "  ● 12" = 6, " ↑3" = 3, "  [#123 draft]" = 14
    assert_eq!(stats_display_width(&wt), 23);
    assert_eq!(stats_display_width(&row("main", None, 0, 0, None)), 0);
    let merged = PrBadge { number: 7, state: PrState::Merged, is_draft: false };
    assert_eq!(stats_display_width(&row("x", None, 0, 45, Some(merged))), 4 + 13);
}

#[test]
fn worktree_line_pieces_and_width() {
    let pr = PrBadge { number: 5, state: PrState::Closed, is_draft: false };
    let wt = row("feature/long-name", Some(2), 1, 4, Some(pr));
    let line = worktree_line(&wt, true, 30);
    let texts: Vec<&str> = line.iter().map(|s| s.text.as_str()).collect();
    assert_eq!(texts, vec!["✓ ", "fea…", "  ", "● 2", " ", "↑1", " ", "↓4", "  ", "[#5 closed]"]);
    assert_eq!(line[0].style, SegmentStyle::IdleMark);
    assert_eq!(line[1].style, SegmentStyle::Branch);
    assert_eq!(line[9].style, SegmentStyle::PrClosed);
    let width: usize = texts.iter().map(|t| t.chars().count()).sum();
    assert_eq!(width, 30);
    let plain = worktree_line(&row("main", None, 0, 0, None), false, 40);
    assert_eq!(plain.len(), 2);
    assert_eq!(plain[0].text, "  ");
    assert_eq!(plain[1].text, "main");
}

#[test]
fn repo_header_pluralizes() {
    let one = repo_header(true, "gitopiary", 1);
    assert_eq!(one[0].text, "▼ gitopiary ");
    assert_eq!(one[1].text, "(1 worktree)");
    let many = repo_header(false, "app", 3);
    assert_eq!(many[0].text, "▶ app ");
    assert_eq!(many[1].text, "(3 worktrees)");
    assert_eq!(many[1].style, SegmentStyle::Dim);
}

#[test]
fn list_lines_follow_the_rows() {
    let rows = vec![
        ListRow::Repo { name: "app".to_string(), is_expanded: true, count: 2 },
        ListRow::Worktree { row: row("main", None, 0, 0, None), idle: true },
        ListRow::Worktree { row: row("dev", Some(3), 0, 0, None), idle: false },
    ];
    let lines = list_lines(&rows, 40);
    assert_eq!(lines.len(), 3);
    let texts: Vec<Vec<&str>> =
        lines.iter().map(|l| l.iter().map(|s| s.text.as_str()).collect()).collect();
    assert_eq!(texts[0], vec!["▼ app ", "(2 worktrees)"]);
    assert_eq!(texts[1], vec!["✓ ", "main"]);
    assert_eq!(texts[2], vec!["  ", "dev", "  ", "● 3"]);
    assert!(list_lines(&[], 40).is_empty());
}

#[test]
fn delete_dialog_message_pieces() {
    let asking = delete_dialog_message("feature", false);
    let texts: Vec<&str> = asking.iter().map(|s| s.text.as_str()).collect();
    assert_eq!(texts, vec!["Delete worktree ", "feature", "?"]);
    assert_eq!(asking[1].style, SegmentStyle::Emphasis);
    assert_eq!(asking[0].style, SegmentStyle::Plain);
    let deleting = delete_dialog_message("feature", true);
    assert_eq!(deleting.len(), 1);
    assert_eq!(deleting[0].text, "Deleting feature...");
    assert_eq!(deleting[0].style, SegmentStyle::Warning);
}

// --- config, pull requests, sessions, git ---

#[test]
fn config_defaults() {
    assert_eq!(default_refresh_interval(), 30);
    assert_eq!(shell_or_default(None), "/bin/sh");
    assert_eq!(shell_or_default(Some("/bin/zsh".to_string())), "/bin/zsh");
    let c = Config::defaults("/bin/bash".to_string());
    assert_eq!(c.refresh_interval_secs, 30);
    assert_eq!(c.shell, "/bin/bash");
    assert!(c.repos.is_empty());
    assert!(c.keybindings.is_empty());
}

#[test]
fn prs_from_listing_copies_fields() {
    assert!(prs_from_listing(None).is_empty());
    let g = GhPullRequest {
        number: 42,
        title: "Add thing".to_string(),
        state: "OPEN".to_string(),
        is_draft: false,
        head_ref_name: "feature/thing".to_string(),
        url: "https://example.com/pr/42".to_string(),
    };
    let prs: Vec<PrInfo> = prs_from_listing(Some(vec![g]));
    assert_eq!(prs.len(), 1);
    assert_eq!(prs[0].number, 42);
    assert_eq!(prs[0].title, "Add thing");
    assert_eq!(prs[0].state, "OPEN");
    assert!(!prs[0].is_draft);
    assert_eq!(prs[0].head_ref, "feature/thing");
    assert_eq!(prs[0].url, "https://example.com/pr/42");
}

#[test]
fn idle_after_two_quiet_seconds() {
    assert!(!is_idle_at(false, 1_000, 10_000));
    assert!(!is_idle_at(true, 0, 10_000));
    assert!(!is_idle_at(true, 8_000, 10_000));
    assert!(is_idle_at(true, 7_999, 10_000));
    assert!(!is_idle_at(true, 10_000, 5_000));
}

#[test]
fn command_outcome_quotes_trimmed_stderr() {
    assert_eq!(command_outcome("git worktree add", true, b"ignored"), Ok(()));
    assert_eq!(
        command_outcome("git worktree add", false, b"  fatal: branch exists\n"),
        Err("git worktree add failed: fatal: branch exists".to_string())
    );
    assert_eq!(
        command_outcome("git worktree remove", false, b"bad \xff byte"),
        Err("git worktree remove failed: bad \u{FFFD} byte".to_string())
    );
}

// --- layout ---

#[test]
fn panel_layout_splits_screen() {
    let l = panel_layout(Rect { x: 0, y: 0, width: 100, height: 30 });
    assert_eq!(l.status, Rect { x: 0, y: 29, width: 100, height: 1 });
    assert_eq!(l.worktrees, Rect { x: 0, y: 0, width: 40, height: 29 });
    assert_eq!(l.terminal, Rect { x: 40, y: 0, width: 60, height: 29 });
    assert_eq!(l.terminal_inner, Rect { x: 41, y: 1, width: 58, height: 27 });
}

#[test]
fn bordered_inner_of_tiny_areas() {
    assert_eq!(bordered_inner(Rect { x: 3, y: 4, width: 1, height: 0 }), Rect { x: 4, y: 4, width: 0, height: 0 });
    assert_eq!(bordered_inner(Rect { x: 0, y: 0, width: 10, height: 5 }), Rect { x: 1, y: 1, width: 8, height: 3 });
}

#[test]
fn dialogs_are_centered() {
    let area = Rect { x: 0, y: 0, width: 100, height: 30 };
    assert_eq!(dialog_area(area, 70, 8), Rect { x: 15, y: 11, width: 70, height: 8 });
    assert_eq!(dialog_area(Rect { x: 2, y: 1, width: 50, height: 4 }, 60, 6), Rect { x: 4, y: 1, width: 46, height: 6 });
    let d = dialog_layout(area, 60, 6, 4);
    assert_eq!(d.area, Rect { x: 20, y: 12, width: 60, height: 6 });
    assert_eq!(d.inner, Rect { x: 21, y: 13, width: 58, height: 4 });
    let rows = d.rows;
    assert_eq!(rows.len(), 4);
    assert_eq!(rows[0], Rect { x: 21, y: 13, width: 58, height: 1 });
    assert_eq!(rows[3], Rect { x: 21, y: 16, width: 58, height: 1 });
    // A screen too small for the dialog still gets one rectangle per row.
    let tiny = dialog_layout(Rect { x: 0, y: 0, width: 3, height: 2 }, 60, 6, 5);
    assert_eq!(tiny.rows.len(), 5);
    assert!(tiny.rows.iter().all(|r| r.x == tiny.inner.x && r.width == tiny.inner.width));
}

#[test]
fn add_repo_input_shows_cursor() {
    assert_eq!(add_repo_input_text("~/src", 2, false), "~/│src");
    assert_eq!(add_repo_input_text("~/src", 5, false), "~/src│");
    assert_eq!(add_repo_input_text("~/src", 9, false), "~/src");
    assert_eq!(add_repo_input_text("~/src", 2, true), "Adding ~/src...");
    assert_eq!(add_repo_input_text("é/x", 2, false), "é│/x");
}

#[test]
fn terminal_title_uses_hints() {
    let kb = Keybindings::default();
    assert_eq!(terminal_title(&kb, true), " Terminal [Ctrl+Space: back] ");
    assert_eq!(terminal_title(&kb, false), " Terminal [Enter: focus] ");
    let mut kb = Keybindings::default();
    kb.unbind_action(Action::FocusTerminal);
    assert_eq!(terminal_title(&kb, false), " Terminal [?: focus] ");
}

// --- terminal drawing ---

#[test]
fn colors_resolve_through_palette() {
    let mut colors = alacritty_terminal::term::color::Colors::default();
    assert_eq!(convert_color(TermColor::Named(NamedColor::BrightBlack), &colors), Color::DarkGray);
    assert_eq!(convert_color(TermColor::Indexed(200), &colors), Color::Indexed(200));
    assert_eq!(
        convert_color(TermColor::Spec(TrueColor { r: 1, g: 2, b: 3 }), &colors),
        Color::Rgb(1, 2, 3)
    );
    colors[1] = Some(alacritty_terminal::vte::ansi::Rgb { r: 10, g: 20, b: 30 });
    colors[256] = Some(alacritty_terminal::vte::ansi::Rgb { r: 7, g: 8, b: 9 });
    assert_eq!(convert_color(TermColor::Named(NamedColor::Red), &colors), Color::Rgb(10, 20, 30));
    assert_eq!(convert_color(TermColor::Indexed(1), &colors), Color::Rgb(10, 20, 30));
    assert_eq!(convert_color(TermColor::Named(NamedColor::Foreground), &colors), Color::Rgb(7, 8, 9));
    assert_eq!(named_color_fallback(NamedColor::Cursor), Color::Rgb(0xdd, 0xdd, 0xdd));
    assert_eq!(named_color_fallback(NamedColor::DimRed), Color::Reset);
    assert_eq!(named_color_fallback(NamedColor::Background), Color::Rgb(0, 0, 0));
}

#[test]
fn cells_land_inside_panel() {
    let colors = alacritty_terminal::term::color::Colors::default();
    let area = Rect { x: 41, y: 1, width: 58, height: 27 };
    let red = TermColor::Named(NamedColor::Red);
    let blue = TermColor::Named(NamedColor::Blue);
    let d = draw_cell(3, 2, 0, area, 'x', red, blue, no_flags(), &colors).unwrap();
    assert_eq!((d.x, d.y, d.ch), (44, 3, 'x'));
    assert_eq!((d.style.fg, d.style.bg), (Color::Red, Color::Blue));
    // Scrolled back by 5 lines: line -3 shows on row 2.
    let d = draw_cell(0, -3, 5, area, '\0', red, blue, CellFlags { inverse: true, bold: true, ..no_flags() }, &colors).unwrap();
    assert_eq!((d.x, d.y, d.ch), (41, 3, ' '));
    assert_eq!((d.style.fg, d.style.bg), (Color::Blue, Color::Red));
    assert!(d.style.modifiers.bold);
    assert!(draw_cell(0, -1, 0, area, 'x', red, blue, no_flags(), &colors).is_none());
    assert!(draw_cell(58, 0, 0, area, 'x', red, blue, no_flags(), &colors).is_none());
    assert!(draw_cell(0, 27, 0, area, 'x', red, blue, no_flags(), &colors).is_none());
    assert!(draw_cell(0, 0, 0, area, 'x', red, blue, CellFlags { wide_char_spacer: true, ..no_flags() }, &colors).is_none());
}

#[test]
fn cursor_and_selection() {
    let area = Rect { x: 10, y: 5, width: 20, height: 4 };
    assert_eq!(cursor_position(2, 1, 0, area, true), Some((12, 6)));
    assert_eq!(cursor_position(2, 1, 0, area, false), None);
    assert_eq!(cursor_position(20, 1, 0, area, true), None);
    assert_eq!(cursor_colors(None, None), (Color::White, Color::Black));
    assert_eq!(cursor_colors(Some(Color::Red), Some(Color::Reset)), (Color::White, Color::Red));
    // A three-line selection from (0, 5) to (2, 3).
    assert_eq!(selection_span(0, 0, 5, 2, 3, false, 0, area), Some(SelectionSpan { y: 5, x_first: 15, x_last: 29 }));
    assert_eq!(selection_span(1, 0, 5, 2, 3, false, 0, area), Some(SelectionSpan { y: 6, x_first: 10, x_last: 29 }));
    assert_eq!(selection_span(2, 0, 5, 2, 3, false, 0, area), Some(SelectionSpan { y: 7, x_first: 10, x_last: 13 }));
    assert_eq!(selection_span(1, 0, 5, 2, 3, true, 0, area), None);
    assert_eq!(selection_span(4, 0, 5, 4, 8, false, 0, area), None);
}
