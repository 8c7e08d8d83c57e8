[package]
name = "cmake_tui_tool"
version = "0.1.0"
edition = "2021"
publish = false

[dependencies]
base64 = "0.22"
cursive = "0.21"
dirs = "6"
serde = { version = "1", features = ["derive"] }
serde_json = "1"
