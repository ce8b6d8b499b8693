[package]
name = "live_panel"
version = "0.1.0"
edition = "2021"
publish = false

[dependencies]
anyhow = "=1.0.104"
crossterm = { version = "=0.29.0", features = ["event-stream"] }
futures = "=0.3.34"
futures-timer = "=3.0.4"
ratatui = "=0.30.2"
tokio = { version = "=1.53.2", features = ["rt", "macros", "time"] }
