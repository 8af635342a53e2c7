[package]
name = "server_actions"
version = "0.1.0"
edition = "2021"
publish = false

[dependencies]
hex = "0.4"
sha1 = "0.10"
serde = { version = "1", features = ["derive"] }
serde_json = "1"
