[package]
name = "log_parser"
version = "0.1.0"
edition = "2021"
publish = false

[dependencies]
anyhow = "*"
axum = "*"
chrono = "*"
dateparser = "*"
dotenvy = "*"
envy = "*"
serde = { version = "*", features = ["derive"] }
serde_json = "*"
sqlx = { version = "*", features = ["sqlite", "runtime-tokio"] }
tracing = "*"
uuid = { version = "*", features = ["v4"] }
