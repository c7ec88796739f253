[package]
name = "mirror_windows"
version = "0.1.0"
edition = "2021"
publish = false

[dependencies]
anyhow = "1"
base64 = "0.22"
log = "0.4"
png = "0.17"
serde = { version = "1", features = ["derive"] }
serde_json = "1"
