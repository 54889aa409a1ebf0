[package]
name = "multicell"
version = "0.1.0"
edition = "2021"
publish = false

[dependencies]
uuid = { version = "1", features = ["v4"] }
rand = "0.8"
eval = "0.4"
serde = { version = "1", features = ["derive"] }
serde_json = "1"
time = "0.1"
