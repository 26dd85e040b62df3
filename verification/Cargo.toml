[package]
name = "ace"
version = "0.1.0"
edition = "2021"
publish = false

[dependencies]
rand = "=0.8.8"
uuid = { version = "=1.29.1", features = ["v4"] }
chrono = "=0.4.45"
serde = { version = "=1.0.229", features = ["derive"] }
serde_json = { version = "=1.0.154", features = ["preserve_order"] }
axum = { version = "=0.7.9", features = ["ws"] }
tokio = { version = "=1.54.1", features = ["full"] }
tower-http = { version = "=0.5.2", features = ["cors"] }
futures-util = "=0.3.34"
log = "=0.4.35"
env_logger = "=0.10.2"
parking_lot = "=0.12.5"
bcrypt = "=0.15.1"
jsonwebtoken = "=9.3.1"
