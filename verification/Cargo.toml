[package]
name = "vsa_core"
version = "0.1.0"
edition = "2021"
publish = false

[dependencies]
regex = "1"
serde = { version = "1", features = ["derive"] }
serde_yaml = "0.9"
serde_json = "1"
walkdir = "2"
chrono = "0.4"
thiserror = "1"

[dev-dependencies]
