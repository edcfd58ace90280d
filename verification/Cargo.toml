[package]
name = "toy_processor"
version = "0.1.0"
edition = "2021"
publish = false

[dependencies]
bloomfilter = "*"
csv = "*"
rust_decimal = "*"
serde = { version = "*", features = ["derive"] }
