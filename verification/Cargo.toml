[package]
name = "sov-aptosvm"
version = "0.1.0"
edition = "2021"
publish = false

[dependencies]
anyhow = "=1.0.104"
borsh = "=0.10.4"
chrono = "=0.4.45"
serde = { version = "=1.0.229", features = ["derive"] }
serde_json = "=1.0.154"
sov-modules-api = { version = "=0.2.0", default-features = false }
sov-state = { version = "=0.2.0", default-features = false }
