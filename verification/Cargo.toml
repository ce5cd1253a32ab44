[package]
name = "speedy_reader"
version = "0.1.0"
edition = "2021"
publish = false

[dependencies]
feed-rs = "*"
html2text = "*"
url = "*"
urlencoding = "*"
chrono = "*"
serde = { version = "*", features = ["derive"] }
serde_json = "*"
toml = "*"
tokio = { version = "*", features = ["rt-multi-thread", "macros", "sync", "time"] }
reqwest = { version = "*", default-features = false, features = ["rustls-tls", "json"] }
rusqlite = { version = "*", features = ["bundled"] }
dirs = "*"
open = "*"
crossterm = "*"
ratatui = "*"
futures = "*"
