[package]
name = "lmx"
version = "0.4.0"
edition = "2021"
publish = false

[dependencies]
base64 = "=0.22.1"
crc32fast = "=1.5.4"
eventsource-stream = "=0.2.3"
futures-util = "=0.3.34"
hex = "=0.4.3"
hmac = "=0.12.1"
image = { version = "=0.25.10", default-features = false, features = ["png", "jpeg", "gif", "webp"] }
napi = { version = "=3.3.0", features = ["async"] }
napi-derive = "=3.2.5"
opus = "=0.3.1"
percent-encoding = "=2.3.2"
pyo3 = { version = "=0.30.1", features = ["abi3-py311"] }
reqwest = { version = "=0.12.28", default-features = false, features = ["json", "multipart", "stream", "rustls-tls"] }
serde = { version = "=1.0.229", features = ["derive"] }
serde_json = "=1.0.154"
sha2 = "=0.10.9"
thiserror = "=2.0.21"
tokio = { version = "=1.54.1", features = ["macros", "rt", "sync", "time"] }
tokio-tungstenite = { version = "=0.30.0", default-features = false, features = ["connect", "rustls-tls-webpki-roots"] }
tokio-util = "=0.7.20"
webrtc = "=0.17.2"
