[package]
name = "wren"
version = "0.1.0"
edition = "2021"
publish = false

[dependencies]
serde = { version = "=1.0.229", features = ["derive"] }
serde_json = "=1.0.154"
reqwest = { version = "=0.12.28", default-features = false, features = ["json", "stream"] }
tokio = { version = "=1.54.1", features = ["full"] }
tokio-util = "=0.7.20"
futures-util = "=0.3.34"
uuid = { version = "=1.29.0", features = ["v4"] }
glob = "=0.3.4"
dom_smoothie = "=0.19.0"
parking_lot = "=0.12.5"
arboard = { version = "=3.7.0", default-features = false }
cpal = "=0.18.2"
whisper-rs = "=0.16.0"
windows = { version = "=0.62.2", features = ["Win32_Foundation", "Win32_UI_WindowsAndMessaging", "Win32_Graphics_Gdi", "Win32_System_Threading"] }
