[package]
name = "anticheat"
version = "0.1.0"
edition = "2021"
publish = false

[dependencies]
jsonwebtoken = { version = "=11.1.0", features = ["rust_crypto"] }
base64 = "=0.23.1"
chrono = { version = "=0.4.45", features = ["serde"] }
axum = { version = "=0.8.9", features = ["ws"] }
axum-extra = { version = "=0.12.6", features = ["cookie-private"] }
tokio = { version = "=1.53.2", features = ["rt-multi-thread", "macros", "net"] }
tower = "=0.5.3"
tower-http = { version = "=0.7.1", features = ["trace", "cors"] }
serde = { version = "=1.0.229", features = ["derive"] }
serde_json = "=1.0.151"
tracing = "=0.1.44"
tracing-subscriber = { version = "=0.3.23", features = ["env-filter"] }
utoipa = "=6.0.0"
