[package]
name = "wormhole"
version = "0.1.0"
edition = "2021"
publish = false

[dependencies]
anyhow = "1"
dirs = "6"
keyring = { version = "3", features = ["apple-native"] }
log = "0.4"
serde = { version = "1", features = ["derive"] }
serde_json = "1"
ssh2 = "0.9"
uuid = { version = "1", features = ["v4"] }
