[package]
name = "neuralbridge_mcp"
version = "0.1.0"
edition = "2021"
publish = false

[dependencies]
bytes = "1"
base64 = "*"
image = { version = "*", default-features = false, features = ["png", "jpeg"] }
anyhow = "1"
tokio = { version = "1", features = ["full"] }
rmcp = { version = "*", features = ["server", "transport-io", "macros"] }
schemars = "*"
serde = { version = "1", features = ["derive"] }
serde_json = "1"
uuid = { version = "1", features = ["v4"] }
futures = "0.3"
tracing = "0.1"
tracing-subscriber = { version = "0.3", features = ["env-filter"] }
prost = "*"
