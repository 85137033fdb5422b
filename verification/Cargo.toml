[package]
name = "rfc1179"
version = "0.1.0"
edition = "2021"
publish = false

[dependencies]
nom = "5"
async-std = { version = "1", features = ["attributes"] }
