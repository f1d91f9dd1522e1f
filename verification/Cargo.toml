[package]
name = "chapr_endpoint"
version = "0.1.0"
edition = "2021"
publish = false

[dependencies]
unicode-normalization = "0.1"
base64 = "0.22"
blake3 = { version = "1", default-features = false, features = ["pure"] }
uuid = { version = "1", features = ["v4"] }
chrono = "0.4"
serde = { version = "1", features = ["derive"] }
serde_json = "1"
schemars = "1"
tokio = { version = "1", features = ["full"] }
reqwest = { version = "0.12", default-features = false, features = ["json", "rustls-tls"] }
rmcp = { version = "*", features = ["server", "macros", "transport-io"] }
fs4 = "*"
tracing = "0.1"
tracing-subscriber = { version = "0.3", features = ["env-filter"] }
