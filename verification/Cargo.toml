[package]
name = "doordb_client"
version = "0.1.0"
edition = "2021"
publish = false

[dependencies]
doors = "*"

[dev-dependencies]
serde_cbor = "0.11"
