[package]
name = "name_service"
version = "0.1.0"
edition = "2021"
publish = false

[dependencies]
cosmwasm-schema = "=2.3.5"
cosmwasm-std = { version = "=2.3.5", features = ["staking"] }
cw-storage-plus = "=2.0.0"
thiserror = "=1.0.69"
validator = "=0.21.0"
