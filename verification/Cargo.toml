[package]
name = "crosschat"
version = "0.1.0"
edition = "2021"
publish = false

[dependencies]
serde = { version = "1", features = ["derive"] }
serde_json = "1"
sha2 = "0.10"
base64 = "0.22"
mime_guess = "2"
dirs = "5"
uuid = { version = "1", features = ["v4"] }
chrono = "0.4"
thiserror = "1"
tokio = { version = "1", features = ["full"] }
futures = "0.3"
futures-util = "0.3"
async-trait = "0.1"
reqwest = { version = "0.12", default-features = false, features = ["json", "stream", "rustls-tls"] }
rusqlite = { version = "0.31", features = ["bundled"] }
keyring = "2"
lazy_static = "1"
axum = "0.7"
async-stream = "0.3"
