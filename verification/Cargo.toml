[package]
name = "os3_bridge"
version = "0.1.0"
edition = "2021"
publish = false

[dependencies]
axum = "0.8.9"
base64 = "0.22.1"
futures-util = "0.3.34"
reqwest = { version = "0.13.5", default-features = false, features = ["json", "native-tls"] }
rig-core = { version = "0.33.0", default-features = false }
serde = { version = "1.0.229", features = ["derive"] }
serde_json = "1.0.154"
tokio = { version = "1.54.1", features = ["full"] }
tokio-tungstenite = { version = "0.30.0", features = ["native-tls"] }
tracing = "0.1.44"
