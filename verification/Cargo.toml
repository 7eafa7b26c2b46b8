[package]
name = "drop_logger"
version = "0.1.0"
edition = "2021"
publish = false

[dependencies]
regex = "1"
anyhow = "1"
askama = "0.12"
axum = "0.7"
chrono = "0.4"
dotenvy = "0.15"
redis = { version = "0.27", features = ["tokio-comp"] }
sea-orm = { version = "1", features = ["sqlx-postgres", "runtime-tokio-rustls", "macros"] }
serde = { version = "1", features = ["derive"] }
serde_json = "1"
tokio = { version = "1", features = ["macros", "rt-multi-thread", "net", "time"] }
tracing = "0.1"
tracing-subscriber = "0.3"
