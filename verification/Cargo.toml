[package]
name = "terra_sdk"
version = "0.1.0"
edition = "2021"
publish = false

[dependencies]
bech32 = "0.9"
serde = { version = "1", features = ["derive"] }
serde_json = "1"
reqwest = { version = "0.11", default-features = false, features = ["json"] }
async-trait = "0.1"
