[package]
name = "nevermail"
version = "0.1.0"
edition = "2021"
publish = false

[dependencies]
ammonia = "*"
ashpd = "*"
dirs = "*"
env_logger = "*"
futures = "0.3"
html2md = "*"
html2text = "*"
keyring = { version = "3", features = ["linux-native"] }
log = "0.4"
notify-rust = "*"
open = "*"
rusqlite = { version = "*", features = ["bundled"] }
serde = { version = "1", features = ["derive"] }
serde_json = "1"
tokio = { version = "1", features = ["sync", "rt", "rt-multi-thread", "time", "fs"] }
url = "2"
