[package]
name = "zenith_backend"
version = "0.1.0"
edition = "2021"
publish = false

[dependencies]
data-encoding = "2"
ed25519-dalek = "2"
rand = "0.8"
uuid = { version = "1", features = ["v4"] }
axum = { version = "0.7", features = ["ws", "macros"] }
tokio = { version = "1", features = ["full"] }
serde = { version = "1", features = ["derive"] }
serde_json = "1"
sqlx = { version = "0.7", default-features = false, features = ["runtime-tokio", "sqlite"] }
tower_governor = "0.4"
tower-http = { version = "0.5", features = ["cors", "trace", "request-id"] }
tracing = "0.1"
tracing-subscriber = { version = "0.3", features = ["env-filter"] }
dotenvy = "0.15"
