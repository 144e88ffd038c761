[package]
name = "bfte"
version = "0.1.0"
edition = "2021"
publish = false

[dependencies]
hex = "=0.4.3"
blake3 = { version = "=1.8.7", features = ["pure"] }
urlencoding = "=2.1.3"
url = "=2.5.8"
bincode = { version = "=2.0.1", features = ["derive"] }
serde = { version = "=1.0.229", features = ["derive"] }
axum = "=0.8.9"
maud = "*"
