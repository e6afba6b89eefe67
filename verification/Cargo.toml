[package]
name = "pawkit_desktop"
version = "0.1.0"
edition = "2021"
publish = false

[dependencies]
cocoa = "0.26"
env_logger = { version = "0.11", default-features = false }
log = "0.4"
objc = "0.2"
portpicker = "0.1"
reqwest = { version = "0.12", default-features = false }
serde = { version = "1", features = ["derive"] }
tauri = { version = "2", default-features = false }
tokio = { version = "1", features = ["time"] }
url = "2"
