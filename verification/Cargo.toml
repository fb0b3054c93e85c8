[package]
name = "lingchat"
version = "0.1.0"
edition = "2021"
publish = false

[dependencies]
serde = { version = "1", features = ["derive"] }
serde_json = "1"
serde_yaml = "0.9"
toml = "0.8"
thiserror = "2"
uuid = { version = "1", features = ["v4"] }
chrono = "0.4"
