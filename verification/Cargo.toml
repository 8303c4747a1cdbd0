[package]
name = "tfs"
version = "0.1.0"
edition = "2021"
publish = false

[dependencies]
anyhow = "=1.0.104"
arboard = { version = "=3.7.0", default-features = false }
crossterm = { version = "=0.28.1", features = ["event-stream"] }
futures = "=0.3.34"
ratatui = "=0.29.0"
russh = "=0.65.0"
russh-sftp = "=3.0.1"
serde = { version = "=1.0.229", features = ["derive"] }
serde_json = "=1.0.154"
tokio = { version = "=1.54.1", features = ["full"] }
tui-term = "=0.2.0"
vt100 = "=0.15.2"
