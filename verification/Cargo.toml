[package]
name = "columnar_core"
version = "0.1.0"
edition = "2021"
publish = false

[dependencies]
sha2 = "*"
chrono-tz = "*"
serde = { version = "*", features = ["derive"] }
serde_json = "*"
