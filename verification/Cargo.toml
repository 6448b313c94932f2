[package]
name = "hardware_comm"
version = "0.1.0"
edition = "2021"
publish = false

[dependencies]
anyhow = "=1.0.104"
crossterm = "=0.29.0"
ratatui = "=0.30.2"
redis = "=1.7.1"
serde = { version = "=1.0.229", features = ["derive"] }
serde_json = "=1.0.151"
serialport = { version = "=4.10.1", default-features = false }
tokio = { version = "=1.53.2", features = ["macros", "rt-multi-thread", "sync", "time"] }
tracing = "=0.1.44"
tracing-subscriber = "=0.3.23"
