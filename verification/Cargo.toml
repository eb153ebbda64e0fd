[package]
name = "socket_access_verifier"
version = "0.1.0"
edition = "2021"
publish = false

[dependencies]
futures-util = "*"
log = "*"
serde = { version = "*", features = ["derive"] }
tokio = { version = "*", features = ["full"] }
tokio-tungstenite = "*"
toml = "*"
