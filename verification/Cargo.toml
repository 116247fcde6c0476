[package]
name = "holochain_core"
version = "0.1.0"
edition = "2021"
publish = false

[dependencies]
futures = "0.3"
riker = "*"
serde_json = { version = "1", features = ["raw_value"] }
walkdir = "2"
wasmi = "*"
