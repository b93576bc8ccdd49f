[package]
name = "yarse"
version = "0.1.0"
edition = "2021"
publish = false

[dependencies]
anyhow = "=1.0.104"
chrono = "=0.4.45"
scraper = { version = "=0.20.0", features = ["deterministic"] }
url = "=2.5.8"
serde = { version = "=1.0.229", features = ["derive"] }
rusqlite = { version = "=0.32.1", features = ["bundled"] }
reqwest = { version = "=0.12.28", default-features = false, features = ["rustls-tls"] }
tokio = { version = "=1.54.1", features = ["macros", "rt-multi-thread"] }
dioxus = { version = "=0.6.3", default-features = false, features = ["macro", "html", "hooks", "signals", "router"] }
