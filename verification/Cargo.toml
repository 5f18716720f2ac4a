[package]
name = "myman"
version = "0.1.0"
edition = "2021"
publish = false

[dependencies]
rusqlite = { version = "0.41.1", features = ["bundled"] }
uuid = { version = "1.29.1", features = ["v4"] }
serde = { version = "1.0.229", features = ["derive"] }
log = "0.4.35"
tauri = { version = "2.12.5", default-features = false }
tauri-plugin-log = { version = "2.10.1", default-features = false }
