[package]
name = "tunnelto"
version = "0.1.0"
edition = "2021"
publish = false

[dependencies]
base64 = "0.13"
chrono = { version = "0.4", default-features = false, features = ["clock"] }
futures = "0.3"
hex = "0.4"
hmac-sha256 = "1"
rand = "0.8"
reqwest = { version = "0.11", default-features = false, features = ["json"] }
serde = { version = "1", features = ["derive"] }
serde_json = "1"
sha2 = "0.10"
tokio = { version = "1", features = ["full"] }
tokio-rustls = "0.24"
tokio-tungstenite = "0.20"
uuid = { version = "1", features = ["v4"] }
warp = "0.3"
webpki-roots = "0.25"
