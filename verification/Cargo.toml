[package]
name = "dim_catalog"
version = "0.1.0"
edition = "2021"
publish = false

[dependencies]
serde = { version = "=1.0.229", features = ["derive"] }
serde_json = "=1.0.154"
sqlx = { version = "0.8", default-features = false, features = ["sqlite", "runtime-tokio"] }
pushevent = "=0.1.3"
slog = "=2.8.2"
slog-async = "=2.8.0"
slog-json = "=2.6.1"
slog-term = "=2.9.2"
chrono = "=0.4.45"
cfg-if = "=1.0.5"
