[package]
name = "prudent-pots"
version = "0.1.0"
edition = "2021"
publish = false

[dependencies]
cosmwasm-schema = "1.5"
cosmwasm-std = "1.5"
cw-storage-plus = "1.2"
cw2 = "1.1"
cw721 = "0.18"
num_enum = "0.7"
thiserror = "1.0"
