[package]
name = "alpha_proxy"
version = "0.1.0"
edition = "2021"
publish = false

[dependencies]
prometheus = "0.13"
bcrypt = "0.15"
rust-argon2 = "2"
base64 = "0.21"
bytes = "1"
chrono = "0.4"
tokio = { version = "1", features = ["full"] }
hyper = { version = "0.14", features = ["full"] }
axum = "0.6"
tower-http = { version = "0.4", features = ["cors"] }
tracing = "0.1"
tracing-subscriber = "0.3"
serde = { version = "1", features = ["derive"] }
toml = "0.8"
anyhow = "1"
async-trait = "0.1"
lazy_static = "1"
socket2 = { version = "0.5", features = ["all"] }
libc = "0.2"
parking_lot = "0.12"
thiserror = "1"
