[package]
name = "ozon_research"
version = "0.1.0"
edition = "2021"
publish = false

[dependencies]
anyhow = "=1.0.104"
base64 = "=0.22.1"
chrono = "=0.4.45"
fs2 = "=0.4.3"
futures-util = "=0.3.34"
image = { version = "=0.25.10", default-features = false, features = ["jpeg", "png", "webp"] }
jsonschema = { version = "=0.60.2", default-features = false }
libc = "=0.2.191"
percent-encoding = "=2.3.2"
regex = "=1.13.1"
reqwest = { version = "=0.13.5", default-features = false, features = ["stream", "rustls"] }
rmcp = { version = "=3.8.0", features = ["server", "transport-io"] }
rusqlite = { version = "=0.41.1", features = ["bundled"] }
serde = { version = "=1.0.229", features = ["derive"] }
serde_json = "=1.0.154"
sha2 = "=0.10.9"
tempfile = "=3.27.0"
tokio = { version = "=1.54.1", features = ["full"] }
tokio-tungstenite = "=0.30.0"
tokio-util = { version = "=0.7.20", features = ["rt"] }
url = "=2.5.8"
uuid = { version = "=1.29.0", features = ["v4"] }
