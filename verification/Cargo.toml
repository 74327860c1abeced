[package]
name = "game_scanner"
version = "0.1.0"
edition = "2021"
publish = false

[dependencies]
base64 = "=0.22.1"
md5 = "=0.7.0"
dirs = "=5.0.1"
walkdir = "=2.5.0"
log = "=0.4.34"
serde = { version = "=1.0.229", features = ["derive"] }
tauri = { version = "2", default-features = false }
tauri-plugin-log = "2"
