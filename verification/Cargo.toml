[package]
name = "zomboid_mod_downloader"
version = "0.1.0"
edition = "2021"
publish = false

[dependencies]
regex = "=1.13.1"
url = "=2.5.8"
serde = { version = "=1.0.229", features = ["derive"] }
serde_json = "=1.0.154"
rusqlite = { version = "=0.32.1", features = ["bundled"] }
chrono = "=0.4.45"
walkdir = "=2.5.0"
dirs = "=5.0.1"
open = "=5.4.5"
windows = { version = "0.58", features = ["Win32_Foundation", "Win32_System_Com", "Win32_UI_Shell", "Win32_UI_Shell_Common"] }
