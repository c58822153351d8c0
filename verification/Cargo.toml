[package]
name = "ostt"
version = "0.1.0"
edition = "2021"
publish = false

[dependencies]
anyhow = "1"
chrono = "0.4"
cpal = "0.15"
crossterm = "0.28"
dirs = "5"
hound = "3.5"
libc = "0.2"
ratatui = "0.29"
serde = { version = "1", features = ["derive"] }
signal-hook = "0.3"
tokio = { version = "1", features = ["full"] }
toml = "0.8"
tracing = "0.1"
