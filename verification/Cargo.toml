[package]
name = "voice_client"
version = "0.1.0"
edition = "2021"
publish = false

[dependencies]
serde = { version = "1", features = ["derive"] }
serde_json = "1"
hound = "3.5"
cpal = "*"
futures-util = "0.3"
keyring = "3"
reqwest = { version = "0.12", default-features = false, features = ["json", "stream"] }
