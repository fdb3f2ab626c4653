[package]
name = "gitopiary"
version = "0.1.0"
edition = "2021"
publish = false

[dependencies]
alacritty_terminal = "0.25"
anyhow = "1"
arboard = { version = "3", default-features = false }
crossterm = { version = "0.28", features = ["event-stream"] }
dirs = "5"
futures = "0.3"
git2 = { version = "0.19", default-features = false }
ratatui = "0.29"
serde = { version = "1", features = ["derive"] }
serde_json = "1"
tokio = { version = "1", features = ["full"] }
tracing = "0.1"
tracing-appender = "0.2"
tracing-subscriber = { version = "0.3", features = ["env-filter"] }

[dev-dependencies]
tempfile = "3"
