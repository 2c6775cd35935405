[package]
name = "tidy-core"
version = "0.1.0"
edition = "2021"
publish = false

[dependencies]
url = "2"
sha2 = "0.10"
slug = "0.1"
quick-xml = "0.37"
chrono = "0.4"
pulldown-cmark = { version = "0.12", default-features = false, features = ["html"] }
htmd = "0.1"
scraper = "0.20"
feed-rs = "2"
dom_smoothie = "*"
texting_robots = "0.2"
serde = { version = "1", features = ["derive"] }
serde_json = "1"
serde_yaml = "0.9"
rusqlite = { version = "0.32", features = ["bundled"] }
reqwest = { version = "0.12", default-features = false, features = ["rustls-tls"] }
tokio = { version = "1", features = ["rt-multi-thread", "macros", "sync", "time"] }
anyhow = "1"
thiserror = "2"

[dev-dependencies]
tempfile = "3"
