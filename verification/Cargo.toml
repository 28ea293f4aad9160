[package]
name = "aiui"
version = "0.1.0"
edition = "2021"
publish = false

[dependencies]
base64 = "=0.22.1"
chrono = "=0.4.45"
futures-util = "=0.3.34"
hex = "=0.4.3"
hmac = "=0.12.1"
image = { version = "=0.25.10", default-features = false, features = ["jpeg"] }
reqwest = "=0.12.28"
serde = { version = "=1.0.229", features = ["derive"] }
serde_json = "=1.0.154"
sha2 = "=0.10.9"
tokio = { version = "=1.54.1", features = ["full"] }
tokio-tungstenite = { version = "=0.24.0", features = ["native-tls"] }
urlencoding = "=2.1.3"
uuid = { version = "=1.29.0", features = ["v4"] }
