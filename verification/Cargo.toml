[package]
name = "bon_scanner"
version = "0.1.0"
edition = "2021"
publish = false

[dependencies]
textdistance = "=1.1.1"
dirs = "=7.0.0"
regex = "=1.13.1"
config = { version = "=0.15.27", default-features = false, features = ["toml"] }
sqlite = "=0.37.4"
ratatui = "=0.29.0"
crossterm = { version = "=0.28.1", features = ["event-stream"] }
tui-textarea = "=0.7.0"
tokio = { version = "=1.54.1", features = ["rt-multi-thread", "macros", "sync", "time"] }
futures = "=0.3.34"
color-eyre = "=0.6.5"
rusty-tesseract = "=1.1.10"

[dev-dependencies]
float-cmp = "=0.10.0"
