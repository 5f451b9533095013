[package]
name = "rulebook"
version = "0.1.0"
edition = "2021"
publish = false

[dependencies]
anyhow = "1"
async-channel = "2"
async-trait = "0.1"
axum = { version = "0.6", features = ["ws"] }
base64 = "0.21"
bytes = "1"
clap = { version = "4", features = ["derive"] }
fastrand = "2"
futures = "0.3"
rand = "0.8"
scoped-tls = "1"
serde = { version = "1", features = ["derive"] }
serde_json = { version = "1", features = ["raw_value"] }
strum = { version = "0.25", features = ["derive"] }
tokio = { version = "1", features = ["full"] }
tokio-tungstenite = "0.20"
wasmtime = { version = "25", default-features = false, features = ["async", "cranelift", "runtime"] }
