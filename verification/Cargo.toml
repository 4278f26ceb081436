[package]
name = "multi_place"
version = "0.1.0"
edition = "2021"
publish = false

[dependencies]
semver = "=1.0.28"
cosmwasm-std = { version = "=1.5.11", features = ["ibc3"] }
cosmwasm-schema = "=1.5.11"
cw2 = "=1.1.2"
cw-storage-plus = "=1.2.0"
serde = { version = "=1.0.229", features = ["derive"] }
thiserror = "=1.0.69"

[dev-dependencies]
serde_json = "=1.0.151"
