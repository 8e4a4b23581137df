[package]
name = "dashboard_auth"
version = "0.1.0"
edition = "2021"
publish = false

[dependencies]
anyhow = "=1.0.104"
axum = "=0.7.9"
base64 = "=0.22.1"
dashmap = "=6.2.1"
hex = "=0.4.3"
rand = "=0.8.8"
serde = { version = "=1.0.229", features = ["derive"] }
serde_json = "=1.0.154"
tracing = "=0.1.44"
url = "=2.5.8"
uuid = { version = "=1.29.0", features = ["v4", "v5"] }
webauthn-rs = { version = "=0.5.5", features = ["danger-allow-state-serialisation"] }
