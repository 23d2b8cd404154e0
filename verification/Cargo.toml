[package]
name = "schemetry"
version = "0.1.0"
edition = "2021"
publish = false

[dependencies]
regex = "1"
serde_json = "1"
encoding_rs = "0.8"
base64 = "0.22"
serde = { version = "1", features = ["derive"] }
anyhow = "1"
chrono = "0.4"
rusqlite = { version = "0.32", features = ["bundled"] }
keyring = "3"
oracle = "0.6"
rust_xlsxwriter = "*"
tokio = { version = "1", features = ["rt-multi-thread"] }
tokio-postgres = "0.7"
