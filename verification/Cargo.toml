[package]
name = "hackatime_heatmap"
version = "0.1.0"
edition = "2021"
publish = false

[dependencies]
axum = "*"
chrono = "0.4"
chrono-tz = "*"
reqwest = { version = "*", features = ["json"] }
serde = { version = "1", features = ["derive"] }
svg = "*"
tokio = { version = "1", features = ["full"] }
tower-http = { version = "*", features = ["catch-panic"] }
tracing-subscriber = "*"
