[package]
name = "frost"
version = "0.1.0"
edition = "2021"
publish = false

[dependencies]
regex-lite = "*"
serde = { version = "*", features = ["derive"] }
serde_json = "*"
toml = "*"
thiserror = "*"
anyhow = "*"
dirs = "*"
tokio = { version = "*", features = ["full"] }
nix = { version = "*", features = ["signal", "process"] }
portable-pty = "*"
alacritty_terminal = "*"
crossterm = "*"
ratatui = "*"
arboard = { version = "*", default-features = false }
