[package]
name = "x3dh_core"
version = "0.1.0"
edition = "2021"
publish = false

[dependencies]
aes-gcm = "0.10"
base64 = "0.22"
cryptimitives = "*"
cryptraits = "*"
rand_core = "0.6"
sha256 = "*"
serde = { version = "1", features = ["derive"] }
serde_json = "1"
log = "0.4"
tokio = { version = "1", features = ["rt-multi-thread", "macros", "sync", "net", "io-util"] }
tokio-tungstenite = "*"
futures-util = "0.3"
thiserror = "1"
