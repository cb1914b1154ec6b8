[package]
name = "bulletd-core"
version = "0.3.0"
edition = "2021"
publish = false

[dependencies]
chrono = "0.4"
rand = "0.9"
dirs = "6"
serde = { version = "1", features = ["derive"] }
serde_json = "1"
toml = "0.8"
thiserror = "2"
schemars = "1"
rmcp = { version = "*", features = ["server", "transport-io", "macros"] }
tokio = { version = "1", features = ["rt-multi-thread", "macros", "io-std"] }
clap = { version = "4", features = ["derive"] }
crossterm = "0.28"
ratatui = "0.29"
tui-textarea = "0.7"
notify = "8"
notify-debouncer-mini = "0.6"
color-eyre = "0.6"
