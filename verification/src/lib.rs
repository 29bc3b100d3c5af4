//! Worktree dashboard logic: key bindings and their config overrides, the
//! text of the worktree list, screen layout, terminal cell drawing,
//! pull-request records, config defaults and command outcomes.
pub mod config;
pub mod git_command;
pub mod github;
pub mod keybinding_laws;
pub mod key_laws;
pub mod keybindings;
pub mod keys;
pub mod layout;
pub mod session;
pub mod terminal_view;
pub mod text;
pub mod worktree_panel;
