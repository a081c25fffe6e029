[package]
name = "linkdrop"
version = "0.1.0"
edition = "2021"
publish = false

[dependencies]
actix-web = "4"
actix-ws = "0.3"
askama = "0.12"
bytesize = "1"
chrono = "0.4"
env_logger = "0.11"
futures-util = "0.3"
lazy_static = "1"
linkify = "0.10"
log = "0.4"
qrcode-generator = "4"
regex = "1"
rusqlite = { version = "0.31", features = ["bundled"] }
serde = { version = "1", features = ["derive"] }
serde_json = "1"
