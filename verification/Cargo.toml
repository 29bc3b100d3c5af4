[package]
name = "gitopiary"
version = "0.1.0"
edition = "2021"
publish = false

[dependencies]
alacritty_terminal = "0.24"
anyhow = "1"
crossterm = "0.28"
dirs = "5"
git2 = { version = "0.19", default-features = false }
ratatui = "0.29"
serde = { version = "1", features = ["derive"] }
serde_json = "1"
thiserror = "1"
tokio = { version = "1", features = ["process", "sync", "rt-multi-thread", "macros"] }
toml = "0.8"
tracing = "0.1"
