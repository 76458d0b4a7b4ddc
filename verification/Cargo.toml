[package]
name = "rustcrew"
version = "0.1.0"
edition = "2021"
publish = false

[dependencies]
uuid = { version = "=1.29.1", features = ["v4"] }
chrono = { version = "=0.4.45", default-features = false, features = ["clock", "serde"] }
serde = { version = "=1.0.229", features = ["derive"] }
serde_json = "=1.0.154"
tokio = { version = "=1.54.1", features = ["rt-multi-thread", "macros", "sync", "time", "fs", "net", "signal"] }
async-trait = "=0.1.92"
futures = "=0.3.34"
axum = "=0.7.9"
dashmap = "=6.2.1"
reqwest = { version = "=0.12.28", default-features = false, features = ["json", "rustls-tls"] }
sqlx = { version = "=0.8.6", default-features = false, features = ["runtime-tokio", "any", "postgres", "mysql", "sqlite"] }
headless_chrome = { version = "=1.0.22", default-features = false, features = ["offline"] }
mongodb = "=3.9.1"
directories = "=5.0.1"
dotenvy = "=0.15.7"
tracing = "=0.1.44"
tracing-subscriber = { version = "=0.3.23", features = ["env-filter"] }
