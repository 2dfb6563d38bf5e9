[package]
name = "dermis"
version = "0.1.0"
edition = "2021"
publish = false

[dependencies]
im = "=10.2.0"
decorum = "=0.4.0"
derive_more = { version = "=2.1.1", features = ["from", "into", "add"] }
serde = { version = "=1.0.229", features = ["derive"] }
serde_json = "=1.0.154"
