[package]
name = "caltui"
version = "0.1.0"
edition = "2021"
publish = false

[dependencies]
anyhow = "=1.0.104"
chrono = "=0.4.45"
chrono-tz = "=0.10.4"
dirs = "=6.0.0"
getrandom = "=0.2.17"
icalendar = "=0.16.17"
notify-rust = "=4.18.2"
open = "=5.4.5"
ratatui = "=0.29.0"
reqwest = { version = "=0.12.28", default-features = false, features = ["json", "rustls-tls"] }
serde = { version = "=1.0.229", features = ["derive"] }
serde_json = "=1.0.154"
sha2 = "0.10"
tokio = { version = "=1.54.1", features = ["rt-multi-thread", "macros", "sync", "time", "net", "io-util"] }
toml = "=0.8.23"
tui-textarea = "=0.7.0"
