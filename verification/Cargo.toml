[package]
name = "sled_store"
version = "0.1.0"
edition = "2021"

[dependencies]
bincode = "1"
serde = { version = "1", features = ["derive"] }
serde_cbor = "0.11"
sled = "0.34"
thiserror = "1"
