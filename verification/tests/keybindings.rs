use std::collections::HashMap;

use gitopiary::config::Config;
use gitopiary::keybindings::Keybindings;
use gitopiary::keys::{format_key, parse_action, parse_key, Action, KeyCode, KeyModifiers};

/// Reads a config file's text the way the config loader does, keeping the
/// `[keybindings]` table as key string -> action name.
fn config_from_toml(text: &str) -> Config {
    let table: toml::Table = toml::from_str(text).unwrap();
    let mut config = Config::defaults("/bin/sh".to_string());
    if let Some(v) = table.get("refresh_interval_secs") {
        config.refresh_interval_secs = v.as_integer().unwrap() as u64;
    }
    if let Some(kb) = table.get("keybindings") {
        for (k, v) in kb.as_table().unwrap() {
            config.keybindings.insert(k.clone(), v.as_str().unwrap().to_string());
        }
    }
    config
}

#[test]
fn default_keybindings_include_all_actions() {
    let kb = Keybindings::default();
    // Every action should have at least one key bound
    assert!(kb.get(KeyCode::Char('j'), KeyModifiers::none()).is_some());
    assert!(kb.get(KeyCode::Char('k'), KeyModifiers::none()).is_some());
    assert!(kb.get(KeyCode::Enter, KeyModifiers::none()).is_some());
    assert!(kb.get(KeyCode::Char(' '), KeyModifiers::control()).is_some());
    assert!(kb.get(KeyCode::Char('q'), KeyModifiers::none()).is_some());
    assert!(kb.get(KeyCode::Char('c'), KeyModifiers::control()).is_some());
    assert!(kb.get(KeyCode::Char('n'), KeyModifiers::none()).is_some());
    assert!(kb.get(KeyCode::Char('e'), KeyModifiers::none()).is_some());
    assert!(kb.get(KeyCode::Char('r'), KeyModifiers::none()).is_some());
    assert!(kb.get(KeyCode::Char('d'), KeyModifiers::none()).is_some());
    assert!(kb.get(KeyCode::Down, KeyModifiers::none()).is_some());
    assert!(kb.get(KeyCode::Up, KeyModifiers::none()).is_some());
    assert!(kb.get(KeyCode::Tab, KeyModifiers::none()).is_some());
    assert!(kb.get(KeyCode::Char(' '), KeyModifiers::none()).is_some());
}

#[test]
fn default_actions_are_correct() {
    let kb = Keybindings::default();
    assert_eq!(kb.get(KeyCode::Char('j'), KeyModifiers::none()), Some(&Action::MoveDown));
    assert_eq!(kb.get(KeyCode::Char('k'), KeyModifiers::none()), Some(&Action::MoveUp));
    assert_eq!(kb.get(KeyCode::Char('q'), KeyModifiers::none()), Some(&Action::Quit));
    assert_eq!(kb.get(KeyCode::Enter, KeyModifiers::none()), Some(&Action::FocusTerminal));
    assert_eq!(kb.get(KeyCode::Char(' '), KeyModifiers::control()), Some(&Action::UnfocusTerminal));
    assert_eq!(kb.get(KeyCode::Char('n'), KeyModifiers::none()), Some(&Action::NewWorktree));
    assert_eq!(kb.get(KeyCode::Char('e'), KeyModifiers::none()), Some(&Action::OpenEditor));
    assert_eq!(kb.get(KeyCode::Char('r'), KeyModifiers::none()), Some(&Action::Refresh));
    assert_eq!(kb.get(KeyCode::Char('d'), KeyModifiers::none()), Some(&Action::DeleteWorktree));
}

#[test]
fn shift_a_maps_to_add_repo() {
    let kb = Keybindings::default();
    assert!(
        kb.get(KeyCode::Char('A'), KeyModifiers::none()).is_some()
        || kb.get(KeyCode::Char('a'), KeyModifiers::shift()).is_some()
    );
}

#[test]
fn parse_simple_key() {
    let (code, mods) = parse_key("j").unwrap();
    assert_eq!(code, KeyCode::Char('j'));
    assert_eq!(mods, KeyModifiers::none());
}

#[test]
fn parse_special_keys() {
    assert_eq!(parse_key("enter").unwrap(), (KeyCode::Enter, KeyModifiers::none()));
    assert_eq!(parse_key("space").unwrap(), (KeyCode::Char(' '), KeyModifiers::none()));
    assert_eq!(parse_key("tab").unwrap(), (KeyCode::Tab, KeyModifiers::none()));
    assert_eq!(parse_key("up").unwrap(), (KeyCode::Up, KeyModifiers::none()));
    assert_eq!(parse_key("down").unwrap(), (KeyCode::Down, KeyModifiers::none()));
    assert_eq!(parse_key("esc").unwrap(), (KeyCode::Esc, KeyModifiers::none()));
    assert_eq!(parse_key("backspace").unwrap(), (KeyCode::Backspace, KeyModifiers::none()));
    assert_eq!(parse_key("delete").unwrap(), (KeyCode::Delete, KeyModifiers::none()));
    assert_eq!(parse_key("home").unwrap(), (KeyCode::Home, KeyModifiers::none()));
    assert_eq!(parse_key("end").unwrap(), (KeyCode::End, KeyModifiers::none()));
    assert_eq!(parse_key("f1").unwrap(), (KeyCode::F(1), KeyModifiers::none()));
    assert_eq!(parse_key("f12").unwrap(), (KeyCode::F(12), KeyModifiers::none()));
}

#[test]
fn parse_modifier_keys() {
    let (code, mods) = parse_key("ctrl+c").unwrap();
    assert_eq!(code, KeyCode::Char('c'));
    assert!(mods.contains(KeyModifiers::control()));

    let (code, mods) = parse_key("ctrl+space").unwrap();
    assert_eq!(code, KeyCode::Char(' '));
    assert!(mods.contains(KeyModifiers::control()));

    let (code, mods) = parse_key("shift+a").unwrap();
    assert_eq!(code, KeyCode::Char('a'));
    assert!(mods.contains(KeyModifiers::shift()));

    let (code, mods) = parse_key("alt+x").unwrap();
    assert_eq!(code, KeyCode::Char('x'));
    assert!(mods.contains(KeyModifiers::alt()));
}

#[test]
fn parse_key_is_case_insensitive_for_special_keys_and_modifiers() {
    // Special key names are case-insensitive
    assert_eq!(parse_key("Enter").unwrap(), parse_key("enter").unwrap());
    assert_eq!(parse_key("Tab").unwrap(), parse_key("tab").unwrap());
    assert_eq!(parse_key("ESC").unwrap(), parse_key("esc").unwrap());
    // Modifier names are case-insensitive
    assert_eq!(parse_key("CTRL+space").unwrap(), parse_key("ctrl+space").unwrap());
    assert_eq!(parse_key("Shift+tab").unwrap(), parse_key("shift+tab").unwrap());
}

#[test]
fn parse_key_preserves_case_for_single_chars() {
    let (code_upper, _) = parse_key("A").unwrap();
    let (code_lower, _) = parse_key("a").unwrap();
    assert_eq!(code_upper, KeyCode::Char('A'));
    assert_eq!(code_lower, KeyCode::Char('a'));
    assert_ne!(code_upper, code_lower);
}

#[test]
fn parse_key_rejects_unknown() {
    assert!(parse_key("banana").is_err());
    assert!(parse_key("ctrl+banana").is_err());
    assert!(parse_key("").is_err());
}

#[test]
fn parse_valid_actions() {
    assert_eq!(parse_action("move_down").unwrap(), Action::MoveDown);
    assert_eq!(parse_action("move_up").unwrap(), Action::MoveUp);
    assert_eq!(parse_action("focus_terminal").unwrap(), Action::FocusTerminal);
    assert_eq!(parse_action("unfocus_terminal").unwrap(), Action::UnfocusTerminal);
    assert_eq!(parse_action("quit").unwrap(), Action::Quit);
    assert_eq!(parse_action("new_worktree").unwrap(), Action::NewWorktree);
    assert_eq!(parse_action("add_repo").unwrap(), Action::AddRepo);
    assert_eq!(parse_action("open_editor").unwrap(), Action::OpenEditor);
    assert_eq!(parse_action("refresh").unwrap(), Action::Refresh);
    assert_eq!(parse_action("delete_worktree").unwrap(), Action::DeleteWorktree);
}

#[test]
fn parse_action_rejects_unknown() {
    assert!(parse_action("fly_to_moon").is_err());
    assert!(parse_action("").is_err());
}

#[test]
fn from_config_empty_returns_defaults() {
    let overrides = HashMap::new();
    let kb = Keybindings::from_config(&overrides).unwrap();
    assert_eq!(kb.get(KeyCode::Char('j'), KeyModifiers::none()), Some(&Action::MoveDown));
    assert_eq!(kb.get(KeyCode::Char('q'), KeyModifiers::none()), Some(&Action::Quit));
}

#[test]
fn from_config_overrides_single_key() {
    let mut overrides = HashMap::new();
    overrides.insert("x".to_string(), "quit".to_string());
    let kb = Keybindings::from_config(&overrides).unwrap();
    // x should now be quit
    assert_eq!(kb.get(KeyCode::Char('x'), KeyModifiers::none()), Some(&Action::Quit));
    // default 'q' removed since user overrode the Quit action
    assert_eq!(kb.get(KeyCode::Char('q'), KeyModifiers::none()), None);
    // Ctrl+C is protected — always maps to Quit unless explicitly rebound
    assert_eq!(kb.get(KeyCode::Char('c'), KeyModifiers::control()), Some(&Action::Quit));
}

#[test]
fn from_config_displaces_default() {
    // Bind 'r' to 'quit' — removes default quit bindings and default 'r' -> 'refresh'
    let mut overrides = HashMap::new();
    overrides.insert("r".to_string(), "quit".to_string());
    let kb = Keybindings::from_config(&overrides).unwrap();
    assert_eq!(kb.get(KeyCode::Char('r'), KeyModifiers::none()), Some(&Action::Quit));
}

#[test]
fn from_config_rejects_bad_key() {
    let mut overrides = HashMap::new();
    overrides.insert("banana".to_string(), "quit".to_string());
    assert!(Keybindings::from_config(&overrides).is_err());
}

#[test]
fn from_config_rejects_bad_action() {
    let mut overrides = HashMap::new();
    overrides.insert("x".to_string(), "fly_away".to_string());
    assert!(Keybindings::from_config(&overrides).is_err());
}

#[test]
fn hint_for_returns_shortest_key() {
    let kb = Keybindings::default();
    // MoveDown is bound to j, down, tab — "j" is shortest
    let hint = kb.hint_for(Action::MoveDown).unwrap();
    assert_eq!(hint, "j");
}

#[test]
fn hint_for_includes_modifiers() {
    let kb = Keybindings::default();
    let hint = kb.hint_for(Action::UnfocusTerminal).unwrap();
    assert_eq!(hint, "Ctrl+Space");
}

#[test]
fn hint_for_unbound_returns_none() {
    let mut kb = Keybindings::default();
    // Remove all MoveDown bindings
    kb.unbind_action(Action::MoveDown);
    assert!(kb.hint_for(Action::MoveDown).is_none());
}

#[test]
fn full_config_round_trip() {
    // Simulate what main.rs does: parse a TOML-like HashMap
    let mut overrides = HashMap::new();
    overrides.insert("x".to_string(), "quit".to_string());
    overrides.insert("ctrl+j".to_string(), "move_down".to_string());

    let kb = Keybindings::from_config(&overrides).unwrap();

    // User overrides work
    assert_eq!(kb.get(KeyCode::Char('x'), KeyModifiers::none()), Some(&Action::Quit));
    assert_eq!(kb.get(KeyCode::Char('j'), KeyModifiers::control()), Some(&Action::MoveDown));

    // Default bindings for overridden actions are removed
    assert_eq!(kb.get(KeyCode::Char('q'), KeyModifiers::none()), None); // quit was overridden
    assert_eq!(kb.get(KeyCode::Char('j'), KeyModifiers::none()), None); // move_down was overridden
    assert_eq!(kb.get(KeyCode::Down, KeyModifiers::none()), None);
    assert_eq!(kb.get(KeyCode::Tab, KeyModifiers::none()), None);

    // Defaults for non-overridden actions still present
    assert_eq!(kb.get(KeyCode::Enter, KeyModifiers::none()), Some(&Action::FocusTerminal));

    // Hint for overridden action shows only the user's key
    let quit_hint = kb.hint_for(Action::Quit).unwrap();
    assert_eq!(quit_hint, "x");
}

#[test]
fn status_bar_hints_with_defaults() {
    let kb = Keybindings::default();
    // Every action should have a hint
    for action in [
        Action::MoveDown, Action::MoveUp, Action::FocusTerminal,
        Action::UnfocusTerminal, Action::Quit, Action::NewWorktree,
        Action::AddRepo, Action::OpenEditor, Action::Refresh,
        Action::DeleteWorktree,
    ] {
        assert!(kb.hint_for(action).is_some(), "no hint for {:?}", action);
    }
}

// --- Override-replaces-defaults: edge cases ---

#[test]
fn override_action_removes_all_defaults_but_leaves_other_actions_fully_intact() {
    // Override only Quit. Every other action's full set of default bindings
    // should remain untouched.
    let mut overrides = HashMap::new();
    overrides.insert("x".to_string(), "quit".to_string());
    let kb = Keybindings::from_config(&overrides).unwrap();

    // MoveDown should retain all three default bindings
    assert_eq!(kb.get(KeyCode::Char('j'), KeyModifiers::none()), Some(&Action::MoveDown));
    assert_eq!(kb.get(KeyCode::Down, KeyModifiers::none()), Some(&Action::MoveDown));
    assert_eq!(kb.get(KeyCode::Tab, KeyModifiers::none()), Some(&Action::MoveDown));

    // MoveUp retains both
    assert_eq!(kb.get(KeyCode::Char('k'), KeyModifiers::none()), Some(&Action::MoveUp));
    assert_eq!(kb.get(KeyCode::Up, KeyModifiers::none()), Some(&Action::MoveUp));

    // FocusTerminal retains both
    assert_eq!(kb.get(KeyCode::Enter, KeyModifiers::none()), Some(&Action::FocusTerminal));
    assert_eq!(kb.get(KeyCode::Char(' '), KeyModifiers::none()), Some(&Action::FocusTerminal));

    // UnfocusTerminal unchanged
    assert_eq!(kb.get(KeyCode::Char(' '), KeyModifiers::control()), Some(&Action::UnfocusTerminal));

    // Other single-key actions unchanged
    assert_eq!(kb.get(KeyCode::Char('n'), KeyModifiers::none()), Some(&Action::NewWorktree));
    assert_eq!(kb.get(KeyCode::Char('e'), KeyModifiers::none()), Some(&Action::OpenEditor));
    assert_eq!(kb.get(KeyCode::Char('r'), KeyModifiers::none()), Some(&Action::Refresh));
    assert_eq!(kb.get(KeyCode::Char('d'), KeyModifiers::none()), Some(&Action::DeleteWorktree));
}

#[test]
fn override_reuses_key_from_different_default_action() {
    // Bind 'j' (default MoveDown) to Refresh.
    // This should remove all default MoveDown bindings AND all default Refresh bindings,
    // then map j -> Refresh.
    let mut overrides = HashMap::new();
    overrides.insert("j".to_string(), "refresh".to_string());
    let kb = Keybindings::from_config(&overrides).unwrap();

    // j is now Refresh
    assert_eq!(kb.get(KeyCode::Char('j'), KeyModifiers::none()), Some(&Action::Refresh));

    // All other default MoveDown bindings are removed (overriding Refresh
    // does not touch MoveDown defaults -- but MoveDown was NOT overridden,
    // wait: actually 'j' was a default for MoveDown, but the override is for Refresh action.
    // The from_config logic removes defaults for overridden *actions* (Refresh),
    // then inserts user keys. The old 'j' -> MoveDown entry gets overwritten
    // by the insert of 'j' -> Refresh.
    // So MoveDown's other bindings (Down, Tab) should still exist.
    assert_eq!(kb.get(KeyCode::Down, KeyModifiers::none()), Some(&Action::MoveDown));
    assert_eq!(kb.get(KeyCode::Tab, KeyModifiers::none()), Some(&Action::MoveDown));

    // Default 'r' -> Refresh should be gone (Refresh action was overridden)
    assert_eq!(kb.get(KeyCode::Char('r'), KeyModifiers::none()), None);
}

#[test]
fn multiple_overrides_for_same_action() {
    // User provides two keys for Quit; all default Quit bindings should be gone,
    // and both user keys should work.
    let mut overrides = HashMap::new();
    overrides.insert("x".to_string(), "quit".to_string());
    overrides.insert("ctrl+q".to_string(), "quit".to_string());
    let kb = Keybindings::from_config(&overrides).unwrap();

    assert_eq!(kb.get(KeyCode::Char('x'), KeyModifiers::none()), Some(&Action::Quit));
    assert_eq!(kb.get(KeyCode::Char('q'), KeyModifiers::control()), Some(&Action::Quit));

    // Default quit keys gone
    assert_eq!(kb.get(KeyCode::Char('q'), KeyModifiers::none()), None);
    // Ctrl+C is protected — still Quit
    assert_eq!(kb.get(KeyCode::Char('c'), KeyModifiers::control()), Some(&Action::Quit));
}

#[test]
fn override_swaps_two_actions() {
    // Swap quit and refresh: r -> quit, q -> refresh
    let mut overrides = HashMap::new();
    overrides.insert("r".to_string(), "quit".to_string());
    overrides.insert("q".to_string(), "refresh".to_string());
    let kb = Keybindings::from_config(&overrides).unwrap();

    assert_eq!(kb.get(KeyCode::Char('r'), KeyModifiers::none()), Some(&Action::Quit));
    assert_eq!(kb.get(KeyCode::Char('q'), KeyModifiers::none()), Some(&Action::Refresh));

    // Ctrl+C is protected — still Quit
    assert_eq!(kb.get(KeyCode::Char('c'), KeyModifiers::control()), Some(&Action::Quit));
}

#[test]
fn get_returns_none_for_unbound_key() {
    let kb = Keybindings::default();
    assert_eq!(kb.get(KeyCode::Char('z'), KeyModifiers::none()), None);
    assert_eq!(kb.get(KeyCode::F(5), KeyModifiers::none()), None);
    assert_eq!(kb.get(KeyCode::Char('j'), KeyModifiers::control()), None);
}

// --- parse_key edge cases ---

#[test]
fn parse_key_trims_whitespace() {
    let (code, mods) = parse_key("  j  ").unwrap();
    assert_eq!(code, KeyCode::Char('j'));
    assert_eq!(mods, KeyModifiers::none());
}

#[test]
fn parse_key_rejects_triple_modifier() {
    // ctrl+shift+a has three parts, which the parser does not support
    assert!(parse_key("ctrl+shift+a").is_err());
}

#[test]
fn parse_key_rejects_modifier_with_empty_key() {
    // "ctrl+" splits into ["ctrl", ""] -- empty key part
    assert!(parse_key("ctrl+").is_err());
}

#[test]
fn parse_key_function_key_boundaries() {
    // f0 is out of range (valid range 1..=12)
    assert!(parse_key("f0").is_err());
    // f13 is out of range
    assert!(parse_key("f13").is_err());
    // f1 and f12 are valid (already tested in parse_special_keys, but
    // boundary values are worth calling out explicitly)
    assert!(parse_key("f1").is_ok());
    assert!(parse_key("f12").is_ok());
}

#[test]
fn parse_key_punctuation_characters() {
    // Punctuation like / and . should parse as Char keys
    let (code, mods) = parse_key("/").unwrap();
    assert_eq!(code, KeyCode::Char('/'));
    assert_eq!(mods, KeyModifiers::none());

    let (code, mods) = parse_key(".").unwrap();
    assert_eq!(code, KeyCode::Char('.'));
    assert_eq!(mods, KeyModifiers::none());
}

#[test]
fn parse_key_left_right_arrow_keys() {
    assert_eq!(parse_key("left").unwrap(), (KeyCode::Left, KeyModifiers::none()));
    assert_eq!(parse_key("right").unwrap(), (KeyCode::Right, KeyModifiers::none()));
}

#[test]
fn parse_key_modifier_with_special_key() {
    let (code, mods) = parse_key("ctrl+enter").unwrap();
    assert_eq!(code, KeyCode::Enter);
    assert!(mods.contains(KeyModifiers::control()));

    let (code, mods) = parse_key("shift+tab").unwrap();
    assert_eq!(code, KeyCode::Tab);
    assert!(mods.contains(KeyModifiers::shift()));

    let (code, mods) = parse_key("alt+f1").unwrap();
    assert_eq!(code, KeyCode::F(1));
    assert!(mods.contains(KeyModifiers::alt()));
}

#[test]
fn parse_key_rejects_unknown_modifier() {
    assert!(parse_key("super+a").is_err());
    assert!(parse_key("meta+a").is_err());
}

// --- parse_action edge cases ---

#[test]
fn parse_action_trims_whitespace() {
    assert_eq!(parse_action("  quit  ").unwrap(), Action::Quit);
    assert_eq!(parse_action("\tmove_down\n").unwrap(), Action::MoveDown);
}

#[test]
fn parse_action_is_case_sensitive() {
    // Actions are lowercase only; mixed case should fail
    assert!(parse_action("Move_Down").is_err());
    assert!(parse_action("QUIT").is_err());
    assert!(parse_action("Quit").is_err());
}

// --- format_key correctness ---

#[test]
fn format_key_produces_expected_strings() {
    assert_eq!(format_key(KeyCode::Char('j'), KeyModifiers::none()), "j");
    assert_eq!(format_key(KeyCode::Enter, KeyModifiers::none()), "Enter");
    assert_eq!(format_key(KeyCode::Char(' '), KeyModifiers::none()), "Space");
    assert_eq!(format_key(KeyCode::Char(' '), KeyModifiers::control()), "Ctrl+Space");
    assert_eq!(format_key(KeyCode::Char('a'), KeyModifiers::shift()), "Shift+A");
    assert_eq!(format_key(KeyCode::Char('x'), KeyModifiers::alt()), "Alt+x");
    assert_eq!(format_key(KeyCode::F(5), KeyModifiers::none()), "F5");
    assert_eq!(format_key(KeyCode::Tab, KeyModifiers::none()), "Tab");
    assert_eq!(format_key(KeyCode::Esc, KeyModifiers::none()), "Esc");
}

#[test]
fn format_key_multiple_modifiers() {
    // While parse_key does not support multiple modifiers, format_key should
    // handle them correctly since KeyModifiers is a bitflag.
    let mods = KeyModifiers::control().union(KeyModifiers::alt());
    let result = format_key(KeyCode::Char('x'), mods);
    assert!(result.contains("Ctrl"));
    assert!(result.contains("Alt"));
    assert!(result.contains("x"));
}

// --- hint_for after override ---

#[test]
fn hint_for_reflects_overrides() {
    let mut overrides = HashMap::new();
    overrides.insert("f1".to_string(), "quit".to_string());
    let kb = Keybindings::from_config(&overrides).unwrap();

    // Only f1 should be bound to Quit, so hint should be "F1"
    assert_eq!(kb.hint_for(Action::Quit), Some("F1".to_string()));

    // Refresh was not overridden and 'r' is its only default binding,
    // so hint should still be "r"
    assert_eq!(kb.hint_for(Action::Refresh), Some("r".to_string()));
}

#[test]
fn hint_for_action_unbound_after_override() {
    // Override Refresh to something, then check if the Refresh action
    // has no default binding for its old key
    let mut overrides = HashMap::new();
    overrides.insert("f2".to_string(), "refresh".to_string());
    let kb = Keybindings::from_config(&overrides).unwrap();

    // 'r' should no longer be bound (Refresh defaults were cleared)
    assert_eq!(kb.get(KeyCode::Char('r'), KeyModifiers::none()), None);
    // Only f2 is bound to Refresh
    assert_eq!(kb.hint_for(Action::Refresh), Some("F2".to_string()));
}

// --- TOML config deserialization integration ---

#[test]
fn toml_keybindings_section_deserializes_to_hashmap() {
    let toml_str = r#"
[keybindings]
esc = "unfocus_terminal"
"ctrl+r" = "refresh"
x = "quit"
"#;
    let config: Config = config_from_toml(toml_str);
    assert_eq!(config.keybindings.len(), 3);
    assert_eq!(config.keybindings.get("esc").unwrap(), "unfocus_terminal");
    assert_eq!(config.keybindings.get("ctrl+r").unwrap(), "refresh");
    assert_eq!(config.keybindings.get("x").unwrap(), "quit");
}

#[test]
fn toml_keybindings_round_trip_through_from_config() {
    // Simulate the full path: TOML -> Config -> Keybindings
    let toml_str = r#"
[keybindings]
esc = "unfocus_terminal"
x = "quit"
"#;
    let config: Config = config_from_toml(toml_str);
    let kb = Keybindings::from_config(&config.keybindings).unwrap();

    // esc -> UnfocusTerminal (user override)
    assert_eq!(kb.get(KeyCode::Esc, KeyModifiers::none()), Some(&Action::UnfocusTerminal));
    // default ctrl+space for UnfocusTerminal should be gone
    assert_eq!(kb.get(KeyCode::Char(' '), KeyModifiers::control()), None);

    // x -> Quit (user override)
    assert_eq!(kb.get(KeyCode::Char('x'), KeyModifiers::none()), Some(&Action::Quit));
    // default 'q' removed
    assert_eq!(kb.get(KeyCode::Char('q'), KeyModifiers::none()), None);
    // Ctrl+C is protected — still Quit
    assert_eq!(kb.get(KeyCode::Char('c'), KeyModifiers::control()), Some(&Action::Quit));

    // Non-overridden actions remain
    assert_eq!(kb.get(KeyCode::Char('j'), KeyModifiers::none()), Some(&Action::MoveDown));
}

#[test]
fn toml_missing_keybindings_section_produces_defaults() {
    let toml_str = r#"
refresh_interval_secs = 10
"#;
    let config: Config = config_from_toml(toml_str);
    assert!(config.keybindings.is_empty());
    let kb = Keybindings::from_config(&config.keybindings).unwrap();
    // Should be full defaults
    assert_eq!(kb.get(KeyCode::Char('q'), KeyModifiers::none()), Some(&Action::Quit));
    assert_eq!(kb.get(KeyCode::Char('j'), KeyModifiers::none()), Some(&Action::MoveDown));
}

#[test]
fn from_config_with_one_bad_entry_rejects_entire_config() {
    // If even one entry is invalid, the whole config should fail.
    // This tests that we fail fast rather than silently ignoring bad entries.
    let mut overrides = HashMap::new();
    overrides.insert("x".to_string(), "quit".to_string());
    overrides.insert("banana".to_string(), "refresh".to_string());
    assert!(Keybindings::from_config(&overrides).is_err());
}

// --- Additional edge cases ---

#[test]
fn parse_key_digit_characters() {
    // Digits are alphanumeric and should parse as Char keys
    let (code, mods) = parse_key("1").unwrap();
    assert_eq!(code, KeyCode::Char('1'));
    assert_eq!(mods, KeyModifiers::none());

    let (code, mods) = parse_key("0").unwrap();
    assert_eq!(code, KeyCode::Char('0'));
    assert_eq!(mods, KeyModifiers::none());

    // Modifier + digit
    let (code, mods) = parse_key("ctrl+5").unwrap();
    assert_eq!(code, KeyCode::Char('5'));
    assert!(mods.contains(KeyModifiers::control()));
}

#[test]
fn parse_key_modifier_with_arrow_keys() {
    let (code, mods) = parse_key("ctrl+up").unwrap();
    assert_eq!(code, KeyCode::Up);
    assert!(mods.contains(KeyModifiers::control()));

    let (code, mods) = parse_key("alt+down").unwrap();
    assert_eq!(code, KeyCode::Down);
    assert!(mods.contains(KeyModifiers::alt()));

    let (code, mods) = parse_key("shift+left").unwrap();
    assert_eq!(code, KeyCode::Left);
    assert!(mods.contains(KeyModifiers::shift()));

    let (code, mods) = parse_key("ctrl+right").unwrap();
    assert_eq!(code, KeyCode::Right);
    assert!(mods.contains(KeyModifiers::control()));
}

#[test]
fn from_config_override_all_actions_clears_entire_default_map() {
    // Override every action to verify no stale defaults remain
    let mut overrides = HashMap::new();
    overrides.insert("f1".to_string(), "move_down".to_string());
    overrides.insert("f2".to_string(), "move_up".to_string());
    overrides.insert("f3".to_string(), "focus_terminal".to_string());
    overrides.insert("f4".to_string(), "unfocus_terminal".to_string());
    overrides.insert("f5".to_string(), "quit".to_string());
    overrides.insert("f6".to_string(), "new_worktree".to_string());
    overrides.insert("f7".to_string(), "add_repo".to_string());
    overrides.insert("f8".to_string(), "open_editor".to_string());
    overrides.insert("f9".to_string(), "refresh".to_string());
    overrides.insert("f10".to_string(), "delete_worktree".to_string());

    let kb = Keybindings::from_config(&overrides).unwrap();

    // All default keys should be gone
    assert_eq!(kb.get(KeyCode::Char('j'), KeyModifiers::none()), None);
    assert_eq!(kb.get(KeyCode::Char('k'), KeyModifiers::none()), None);
    assert_eq!(kb.get(KeyCode::Down, KeyModifiers::none()), None);
    assert_eq!(kb.get(KeyCode::Up, KeyModifiers::none()), None);
    assert_eq!(kb.get(KeyCode::Tab, KeyModifiers::none()), None);
    assert_eq!(kb.get(KeyCode::Enter, KeyModifiers::none()), None);
    assert_eq!(kb.get(KeyCode::Char(' '), KeyModifiers::none()), None);
    assert_eq!(kb.get(KeyCode::Char(' '), KeyModifiers::control()), None);
    assert_eq!(kb.get(KeyCode::Char('q'), KeyModifiers::none()), None);
    // Ctrl+C is protected even when all actions are overridden
    assert_eq!(kb.get(KeyCode::Char('c'), KeyModifiers::control()), Some(&Action::Quit));
    assert_eq!(kb.get(KeyCode::Char('n'), KeyModifiers::none()), None);
    assert_eq!(kb.get(KeyCode::Char('a'), KeyModifiers::shift()), None);
    assert_eq!(kb.get(KeyCode::Char('A'), KeyModifiers::none()), None);
    assert_eq!(kb.get(KeyCode::Char('e'), KeyModifiers::none()), None);
    assert_eq!(kb.get(KeyCode::Char('r'), KeyModifiers::none()), None);
    assert_eq!(kb.get(KeyCode::Char('d'), KeyModifiers::none()), None);

    // Only function keys should be bound
    assert_eq!(kb.get(KeyCode::F(1), KeyModifiers::none()), Some(&Action::MoveDown));
    assert_eq!(kb.get(KeyCode::F(2), KeyModifiers::none()), Some(&Action::MoveUp));
    assert_eq!(kb.get(KeyCode::F(3), KeyModifiers::none()), Some(&Action::FocusTerminal));
    assert_eq!(kb.get(KeyCode::F(4), KeyModifiers::none()), Some(&Action::UnfocusTerminal));
    assert_eq!(kb.get(KeyCode::F(5), KeyModifiers::none()), Some(&Action::Quit));
    assert_eq!(kb.get(KeyCode::F(6), KeyModifiers::none()), Some(&Action::NewWorktree));
    assert_eq!(kb.get(KeyCode::F(7), KeyModifiers::none()), Some(&Action::AddRepo));
    assert_eq!(kb.get(KeyCode::F(8), KeyModifiers::none()), Some(&Action::OpenEditor));
    assert_eq!(kb.get(KeyCode::F(9), KeyModifiers::none()), Some(&Action::Refresh));
    assert_eq!(kb.get(KeyCode::F(10), KeyModifiers::none()), Some(&Action::DeleteWorktree));
}

#[test]
fn hint_for_deterministic_tiebreaker_on_equal_length() {
    // When two bindings have the same formatted length, hint_for should
    // return a deterministic result (lexicographically smallest).
    let mut overrides = HashMap::new();
    // Bind both 'a' and 'b' to Quit -- both format to length 1
    overrides.insert("a".to_string(), "quit".to_string());
    overrides.insert("b".to_string(), "quit".to_string());
    let kb = Keybindings::from_config(&overrides).unwrap();

    let hint = kb.hint_for(Action::Quit).unwrap();
    assert_eq!(hint, "a"); // 'a' < 'b' lexicographically
}

#[test]
fn from_config_duplicate_key_last_write_wins() {
    // If the same key appears mapped to two different actions, HashMap
    // deduplicates so only one survives. Verify from_config handles this
    // without panicking -- the exact winner depends on HashMap iteration
    // order, but the result should be valid.
    let mut overrides = HashMap::new();
    overrides.insert("x".to_string(), "quit".to_string());
    // Inserting same key with different action overwrites in HashMap
    overrides.insert("x".to_string(), "refresh".to_string());
    let kb = Keybindings::from_config(&overrides).unwrap();

    // HashMap deduplication means only "refresh" survives
    assert_eq!(kb.get(KeyCode::Char('x'), KeyModifiers::none()), Some(&Action::Refresh));
}

#[test]
fn toml_keybindings_with_modifier_keys_requiring_quotes() {
    // In TOML, keys with '+' must be quoted. Verify this works correctly.
    let toml_str = r#"
[keybindings]
"ctrl+space" = "unfocus_terminal"
"shift+a" = "add_repo"
"alt+r" = "refresh"
"#;
    let config: Config = config_from_toml(toml_str);
    let kb = Keybindings::from_config(&config.keybindings).unwrap();

    assert_eq!(kb.get(KeyCode::Char(' '), KeyModifiers::control()), Some(&Action::UnfocusTerminal));
    assert_eq!(kb.get(KeyCode::Char('a'), KeyModifiers::shift()), Some(&Action::AddRepo));
    assert_eq!(kb.get(KeyCode::Char('r'), KeyModifiers::alt()), Some(&Action::Refresh));
}

#[test]
fn from_config_override_does_not_affect_key_used_by_unrelated_action() {
    // Override Quit to 'x'. The key 'q' was default-bound to Quit and
    // should be unbound. But 'j' (MoveDown) should be completely unaffected.
    let mut overrides = HashMap::new();
    overrides.insert("x".to_string(), "quit".to_string());
    let kb = Keybindings::from_config(&overrides).unwrap();

    // 'q' gone (Quit defaults removed)
    assert_eq!(kb.get(KeyCode::Char('q'), KeyModifiers::none()), None);
    // 'j' still MoveDown (different action, not touched)
    assert_eq!(kb.get(KeyCode::Char('j'), KeyModifiers::none()), Some(&Action::MoveDown));
    // 'x' is Quit
    assert_eq!(kb.get(KeyCode::Char('x'), KeyModifiers::none()), Some(&Action::Quit));
}

// --- Ctrl+C protection ---

#[test]
fn ctrl_c_is_protected_when_quit_overridden() {
    let mut overrides = HashMap::new();
    overrides.insert("x".to_string(), "quit".to_string());
    let kb = Keybindings::from_config(&overrides).unwrap();

    // User's quit binding works
    assert_eq!(kb.get(KeyCode::Char('x'), KeyModifiers::none()), Some(&Action::Quit));
    // Ctrl+C is automatically preserved as Quit
    assert_eq!(kb.get(KeyCode::Char('c'), KeyModifiers::control()), Some(&Action::Quit));
    // Default 'q' is removed (user overrode Quit action)
    assert_eq!(kb.get(KeyCode::Char('q'), KeyModifiers::none()), None);
}

#[test]
fn ctrl_c_can_be_explicitly_rebound() {
    let mut overrides = HashMap::new();
    overrides.insert("ctrl+c".to_string(), "refresh".to_string());
    let kb = Keybindings::from_config(&overrides).unwrap();

    // User explicitly bound Ctrl+C to Refresh — that takes precedence
    assert_eq!(kb.get(KeyCode::Char('c'), KeyModifiers::control()), Some(&Action::Refresh));
}

#[test]
fn ctrl_c_preserved_when_no_quit_override() {
    // No overrides at all — Ctrl+C should still be Quit (default)
    let kb = Keybindings::from_config(&HashMap::new()).unwrap();
    assert_eq!(kb.get(KeyCode::Char('c'), KeyModifiers::control()), Some(&Action::Quit));
}

