[package]
name = "poppy"
version = "0.1.0"
edition = "2021"
publish = false

[dependencies]
urlencoding = "2"
serde = { version = "1", features = ["derive"] }
serde_json = "1"
toml = "0.8"
directories = "6"
arboard = "3"
open = "5"
walkdir = "2"
futures-util = "0.3"
tokio = { version = "1", features = ["time", "rt"] }
reqwest = { version = "0.12", default-features = false, features = ["json", "stream", "rustls-tls"] }
image = { version = "0.25", default-features = false, features = ["ico", "png"] }
windows = { version = "0.58", features = ["Win32_Foundation", "Win32_UI_WindowsAndMessaging", "Win32_Graphics_Dwm"] }
