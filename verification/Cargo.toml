[package]
name = "blendwerk"
version = "0.1.0"
edition = "2021"
publish = false

[dependencies]
anyhow = "1"
axum = "0.8"
axum-server = { version = "*", features = ["tls-rustls"] }
chrono = "0.4"
clap = { version = "4", features = ["derive"] }
notify = "*"
pid1 = "*"
rcgen = "*"
serde = { version = "1", features = ["derive"] }
serde_json = "1"
serde_yaml = "0.9"
tokio = { version = "1", features = ["full"] }
tower-http = { version = "*", features = ["trace"] }
tracing = "0.1"
tracing-subscriber = "0.3"
ulid = "1"
