[package]
name = "kcptun"
version = "0.1.0"
edition = "2021"
publish = false

[dependencies]
aes = "0.8"
anyhow = "1"
bytes = "1"
clap = { version = "4", features = ["derive"] }
env_logger = "0.11"
hmac = "0.12"
libc = "0.2"
log = "0.4"
parking_lot = "0.12"
pbkdf2 = { version = "0.12", features = ["hmac"] }
serde = { version = "1", features = ["derive"] }
serde_json = "1"
sha1 = "0.10"
sha2 = "0.10"
snap = "1"
socket2 = "0.5"
