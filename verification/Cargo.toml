[package]
name = "session_auth"
version = "0.1.0"
edition = "2021"
publish = false

[dependencies]
jsonwebtoken = "=9.3.1"
base64 = "=0.22.1"
serde = { version = "=1.0.229", features = ["derive"] }
serde_json = "=1.0.151"
axum = "=0.7.9"
axum-extra = { version = "=0.9.6", features = ["typed-header"] }
tower-cookies = "=0.10.0"
tower-http = { version = "=0.5.2", features = ["fs"] }
tokio = { version = "=1.53.2", features = ["rt-multi-thread", "net"] }
chrono = "=0.4.45"
thiserror = "=1.0.69"
tracing = "=0.1.44"
tracing-subscriber = "=0.3.23"
