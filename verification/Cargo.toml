[package]
name = "parselab"
version = "0.1.0"
edition = "2021"
publish = false

[dependencies]
anyhow = "=1.0.104"
async-trait = "=0.1.92"
base64 = "=0.22.1"
chrono = { version = "=0.4.45", features = ["serde"] }
futures = "=0.3.34"
image = { version = "=0.25.10", default-features = false, features = ["png"] }
kdl = "=6.7.1"
log = "=0.4.35"
pdfium-render = "=0.8.37"
reqwest = { version = "=0.12.28", default-features = false, features = ["json", "rustls-tls"] }
serde = { version = "=1.0.229", features = ["derive"] }
serde_json = { version = "=1.0.154", features = ["float_roundtrip"] }
thiserror = "=1.0.69"
tokio = { version = "=1.54.1", features = ["rt", "rt-multi-thread", "sync", "time", "macros"] }
uuid = { version = "=1.29.0", features = ["serde", "v4"] }
