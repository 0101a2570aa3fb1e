[package]
name = "rust_manga_scraper"
version = "0.1.0"
edition = "2021"
publish = false

[dependencies]
regex = "=1.13.1"
rand = "=0.8.8"
reqwest = { version = "=0.11.27", default-features = false, features = ["cookies", "gzip", "brotli", "json"] }
serde = { version = "=1.0.229", features = ["derive"] }
serde_json = "=1.0.154"
toml = "=0.8.23"
tokio = { version = "=1.54.1", features = ["time", "rt", "macros"] }
chrono = "=0.4.45"
uuid = { version = "=1.29.1", features = ["v4"] }
urlencoding = "=2.1.3"
zip = { version = "=0.6.6", default-features = false, features = ["deflate"] }
headless_chrome = "=1.0.22"
log = "=0.4.35"
thiserror = "=1.0.69"
scraper = "=0.18.1"
rusqlite = "0.31"
