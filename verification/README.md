# gitopiary

A full-screen terminal dashboard for git worktrees across several
repositories, with an embedded terminal per worktree. The crate's library
(`src/`) holds the logic, proved with Verus; `app/` holds what runs around
it: config files, `git` and `gh` commands, pseudo-terminals, key events and
drawing with ratatui.

Library modules:

- `keys` — actions, keys and modifiers; the key-string grammar
  (`"ctrl+space"`, `"j"`, `"f12"`), action names, the canonical form of
  Shift+letter keys and the display form of a key; `key_laws` states that
  the display form of a key reads back as the same key.
- `keybindings` — the key map: defaults, user overrides merged on top,
  lookup, and the shortest-key hints; `keybinding_laws` states what holds of
  every key map built from a config.
- `worktree_panel` — the text of the worktree list: branch names cut to the
  width, status figures, pull-request badges.
- `layout`, `terminal_view` — screen geometry, dialogs, and where and how
  terminal cells, the cursor and the selection are drawn.
- `config`, `github`, `session`, `git_command` — config defaults,
  pull-request records, idle detection, and command outcomes.
- `text` — whitespace trimming, lowercasing, decimal numbers and string
  building.
