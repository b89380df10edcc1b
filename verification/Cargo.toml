[package]
name = "finicky"
version = "0.1.0"
edition = "2021"
publish = false

[dependencies]
rand = "*"
ulid = "*"
rusty_ulid = "*"
chrono = "*"
serde = { version = "*", features = ["derive"] }
serde_json = "*"
