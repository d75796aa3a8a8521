[package]
name = "heavy_folders"
version = "0.1.0"
edition = "2021"
publish = false

[dependencies]
log = "0.4"
once_cell = "1"
serde = { version = "1", features = ["derive"] }
tauri = { version = "2", default-features = false }
tauri-plugin-fs = "2"
tauri-plugin-store = "2"
trash = "5"
walkdir = "2"
