[package]
name = "root_policy"
version = "0.1.0"
edition = "2021"
publish = false

[dependencies]
anyhow = "=1.0.104"
base64 = "=0.13.1"
chrono = { version = "=0.4.45", features = ["serde"] }
ecdsa = { version = "=0.12.4", features = ["der", "pkcs8", "verify"] }
p256 = { version = "=0.9.0", features = ["ecdsa", "pkcs8"] }
serde = { version = "=1.0.229", features = ["derive"] }
serde_json = { version = "=1.0.154", features = ["raw_value"] }
serde_plain = "=1.0.2"
x509-parser = "=0.13.2"
