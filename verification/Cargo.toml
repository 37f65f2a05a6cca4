[package]
name = "loupe"
version = "0.1.0"
edition = "2021"
publish = false

[dependencies]
serde_json = { version = "=1.0.154", features = ["raw_value"] }
chrono = { version = "=0.4.45", default-features = false, features = ["std", "clock"] }
crossterm = "=0.28.1"
ratatui = "=0.29.0"
pulldown-cmark = { version = "=0.12.2", default-features = false }
syntect = { version = "=5.3.0", default-features = false, features = ["default-fancy"] }
notify = "=6.1.1"
tokio = { version = "=1.54.1", features = ["rt-multi-thread", "macros", "sync", "time"] }
tokio-util = "=0.7.20"
clap = { version = "=4.6.7", features = ["derive"] }
color-eyre = "=0.6.5"

[dev-dependencies]
tempfile = "=3.27.0"
