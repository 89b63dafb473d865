[package]
name = "marlin"
version = "0.1.0"
edition = "2021"
publish = false

[dependencies]
anyhow = "1"
base64 = "0.22"
chrono = "0.4"
crossterm = "0.28"
ratatui = "0.29"
serde = { version = "1", features = ["derive"] }
serde_json = "1"
tachyonfx = "*"
tokio = { version = "1", features = ["sync", "time", "rt", "rt-multi-thread", "macros"] }
tui-scrollview = "0.5"
tui-textarea = "0.7"
