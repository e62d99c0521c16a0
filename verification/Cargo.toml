[package]
name = "pangea_client"
version = "0.1.0"
edition = "2021"
publish = false

[dependencies]
base64 = "*"
uuid = { version = "*", features = ["v4"] }
tokio = { version = "*", features = ["rt", "sync", "time", "net", "macros"] }
tokio-stream = "*"
tokio-tungstenite = "*"
tungstenite = "*"
futures = "*"
http = "*"
tracing = "*"

[dev-dependencies]
serde_json = "*"
