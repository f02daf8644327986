[package]
name = "osmo_bindings"
version = "0.8.0"
edition = "2021"
publish = false

[dependencies]
cosmwasm-std = "1"
cosmwasm-schema = "1"
cw2 = "1"
cw-storage-plus = "1"
cw-multi-test = "0.20"
serde = { version = "1", features = ["derive"] }
schemars = "0.8"
thiserror = "1"
anyhow = "1"
