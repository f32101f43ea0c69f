[package]
name = "inventorix_server"
version = "0.1.0"
edition = "2021"
publish = false

[dependencies]
anyhow = "=1.0.104"
argon2 = "=0.5.3"
async-trait = "=0.1.92"
axum = { version = "=0.8.9", features = ["ws", "multipart", "macros"] }
calamine = "=0.38.0"
chrono = "=0.4.45"
dashmap = "=6.2.1"
dotenvy = "=0.15.7"
reqwest = { version = "=0.12.28", default-features = false }
rust_xlsxwriter = "=0.79.4"
serde = { version = "=1.0.229", features = ["derive"] }
serde_json = "=1.0.154"
sqlx = { version = "=0.8.6", default-features = false, features = ["sqlite", "runtime-tokio", "migrate"] }
tera = { version = "=1.20.1", default-features = false }
tokio = { version = "=1.54.1", features = ["sync", "rt-multi-thread", "macros", "net", "time", "fs", "io-util"] }
tower-http = { version = "=0.6.11", features = ["fs"] }
tower-sessions = "=0.14.0"
tower-sessions-sqlx-store = { version = "=0.15.0", features = ["sqlite"] }
tracing = "=0.1.44"
tracing-subscriber = { version = "=0.3.23", features = ["env-filter"] }
