[package]
name = "tui_base_framework"
version = "0.1.0"
edition = "2021"
publish = false

[dependencies]
anyhow = "1"
crossterm = "0.28"
ratatui = "0.29"
tokio = { version = "1", features = ["sync", "rt", "rt-multi-thread", "time", "macros"] }
