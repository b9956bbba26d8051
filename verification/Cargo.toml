[package]
name = "unhexo"
version = "0.1.0"
edition = "2021"
publish = false

[dependencies]
serde = { version = "1", features = ["derive"] }
tauri = { version = "2", default-features = false }
tauri-plugin-fs = { version = "2", default-features = false }
tauri-plugin-process = { version = "2", default-features = false }
tauri-plugin-store = { version = "2", default-features = false }
