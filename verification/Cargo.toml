[package]
name = "embedded_bacnet"
version = "0.1.0"
edition = "2021"
publish = false

[dependencies]
flagset = "0.4"
serde = { version = "1", features = ["derive"] }
