[package]
name = "helpdesk_core"
version = "0.1.0"
edition = "2021"
publish = false

[dependencies]
anyhow = "1"
axum = { version = "0.8", features = ["ws"] }
axum-extra = { version = "*", features = ["typed-header"] }
chrono = { version = "0.4", features = ["serde"] }
deunicode = "1"
dotenvy = "0.15"
futures-util = "0.3"
headers = "0.4"
jsonwebtoken = "9"
serde = { version = "1", features = ["derive"] }
serde_json = "1"
sqlx = { version = "0.8", default-features = false, features = ["runtime-tokio", "postgres", "uuid", "chrono"] }
tokio = { version = "1", features = ["rt-multi-thread", "macros", "sync", "net"] }
tracing = "0.1"
uuid = { version = "1", features = ["v4", "serde"] }
validator = "*"

[dev-dependencies]
slug = "0.1"
