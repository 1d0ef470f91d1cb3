[package]
name = "scraper_engine"
version = "0.1.0"
edition = "2021"
publish = false

[dependencies]
scraper = "*"
axum = "*"
reqwest = { version = "*", default-features = false }
serde = { version = "*", features = ["derive"] }
tokio = { version = "*", features = ["rt-multi-thread", "macros", "net"] }
tracing-subscriber = "*"
