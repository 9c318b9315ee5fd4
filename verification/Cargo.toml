[package]
name = "giga_test"
version = "0.1.0"
edition = "2021"
publish = false

[dependencies]
askama = "=0.16.1"
axum = "=0.8.9"
dotenvy = "=0.15.7"
regex = "=1.13.1"
serde = { version = "=1.0.229", features = ["derive"] }
thiserror = "=2.0.21"
tokio = { version = "=1.54.1", features = ["macros", "rt-multi-thread", "net", "signal"] }
toml = "=0.8.23"
tower = "=0.5.3"
tower-http = { version = "=0.6.11", features = ["compression-gzip", "fs", "timeout", "trace"] }
tower-sessions = "=0.14.0"
tower-sessions-sqlx-store = { version = "=0.15.0", features = ["sqlite"] }
tracing = "=0.1.44"
tracing-subscriber = "=0.3.23"
