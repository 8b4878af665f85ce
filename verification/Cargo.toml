[package]
name = "synalux_relay"
version = "0.1.0"
edition = "2021"
publish = false

[dependencies]
base64 = "0.22"
url = "2"
reqwest = { version = "0.12", default-features = false, features = ["json"] }
serde = { version = "1", features = ["derive"] }
serde_json = "1"
tokio = { version = "1", default-features = false, features = ["rt", "net", "time", "io-util", "sync"] }
dirs = "5"
keyring = { version = "3", default-features = false }
log = "0.4"
