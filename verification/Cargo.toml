[package]
name = "tui_dotfile_manager"
version = "0.1.0"
edition = "2021"
publish = false

[dependencies]
anyhow = "1"
chrono = "0.4"
clap = { version = "4", features = ["derive"] }
crossterm = "*"
ratatui = "*"
serde = { version = "1", features = ["derive"] }
shellexpand = { version = "3", features = ["path"] }
similar = "2"
thiserror = "*"
toml = "*"
