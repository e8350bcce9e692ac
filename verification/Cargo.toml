[package]
name = "smolcloud"
version = "0.1.0"
edition = "2021"
publish = false

[dependencies]
jsonwebtoken = "9"
serde_json = { version = "1", features = ["raw_value"] }
uuid = { version = "1", features = ["v4", "v7"] }
time = "0.3"
argon2 = "0.5"
secrecy = "0.10"
serde = { version = "1", features = ["derive"] }
axum = "0.8"
tokio = { version = "1", features = ["macros", "rt-multi-thread"] }
thiserror = "2"
anyhow = "1"
tracing = "0.1"
clap = { version = "4", features = ["derive"] }
reqwest = { version = "0.12", default-features = false, features = ["json"] }
tower-service = "0.3"
tracing-subscriber = { version = "0.3", features = ["json", "time"] }
tracing-web = "0.1"
worker = { version = "0.6", features = ["http", "axum"] }
worker-sys = "0.6"
