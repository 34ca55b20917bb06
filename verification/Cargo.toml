[package]
name = "rusty_usn"
version = "0.1.0"
edition = "2021"
publish = false

[dependencies]
chrono = "0.4"
encoding = "0.2"
serde = { version = "1", features = ["derive"] }
serde_json = "1"
