[package]
name = "deskovery"
version = "0.1.0"
edition = "2021"
publish = false

[dependencies]
serde = { version = "1", features = ["derive"] }
serde_json = "1"
serde-json-core = "*"
serial = "0.4"
bmp = "0.5"
rocket = { version = "0.5", features = ["json"] }
