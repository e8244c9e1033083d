[package]
name = "llm_proxy_app"
version = "0.1.0"
edition = "2021"
publish = false

[dependencies]
serde = { version = "1", features = ["derive"] }
serde_json = "1"
minreq = "2"
open = "5"
log = "0.4"
tauri = { version = "2", default-features = false, features = ["tray-icon"] }
