[package]
name = "colstore"
version = "0.1.0"
edition = "2021"
publish = false

[dependencies]
memmap2 = "*"
serde = { version = "*", features = ["derive"] }
serde_json = "*"
arrow-schema = "*"
