[package]
name = "trapziu_backend"
version = "0.1.0"
edition = "2021"
publish = false

[dependencies]
argon2 = "0.5"
rand = "0.8"
axum = "0.7"
tokio = { version = "1", features = ["rt-multi-thread", "macros", "net"] }
tower = { version = "0.4", features = ["timeout"] }
tower-http = { version = "0.5", features = ["trace", "cors"] }
tracing = "0.1"
tracing-subscriber = { version = "0.3", features = ["env-filter"] }
serde = { version = "1", features = ["derive"] }
serde_json = "1"
jsonwebtoken = "9"
dotenv = "0.15"
anyhow = "1"
thiserror = "1"
lazy_static = "1"
