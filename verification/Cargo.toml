[package]
name = "content_sync"
version = "0.1.0"
edition = "2021"
publish = false

[dependencies]
regex = "=1.13.1"
scraper = { version = "=0.20.0", features = ["deterministic"] }
slugify = "=0.1.0"
chrono = "=0.4.45"
serde = { version = "=1.0.229", features = ["derive"] }
serde_json = "=1.0.154"
reqwest = { version = "=0.12.28", default-features = false, features = ["blocking", "json", "rustls-tls"] }
tokio = { version = "=1.54.1", features = ["macros", "rt-multi-thread"] }
log = "=0.4.35"
pretty_env_logger = "=0.5.0"
axum = "=0.7.9"
jsonwebtoken = "=9.3.1"
url = "=2.5.8"
