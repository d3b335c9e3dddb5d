[package]
name = "studio-core"
version = "0.1.0"
edition = "2021"
publish = false

[dependencies]
sha2 = "0.10"
serde = { version = "1", features = ["derive"] }
serde_json = "1"
thiserror = "2"
chrono = { version = "0.4", features = ["serde"] }
keyring = "3"
ringbuf = "0.4"
cpal = "*"
tauri = { version = "2", default-features = false }
