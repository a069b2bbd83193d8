[package]
name = "mentor-x-contracts"
version = "0.1.0"
edition = "2021"
publish = false

[dependencies]
cosmwasm-schema = "2"
cosmwasm-std = "2"
cw-storage-plus = "2"
cw2 = "2"
schemars = "0.8"
serde = { version = "1", default-features = false, features = ["derive"] }
thiserror = "1"
