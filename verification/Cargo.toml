[package]
name = "claw-monitor"
version = "0.1.0"
edition = "2021"
publish = false

[dependencies]
rusqlite = "*"
serde = { version = "1", features = ["derive"] }
tauri = { version = "2", default-features = false }
