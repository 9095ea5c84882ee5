[package]
name = "xcp_lite"
version = "0.1.0"
edition = "2021"
publish = false

[dependencies]
regex = "1"
parking_lot = "0.12"
log = "0.4"
serde = { version = "1", features = ["derive"] }
serde_json = "1"
thiserror = "2"
