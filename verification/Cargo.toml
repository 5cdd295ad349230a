[package]
name = "h2ac-rs"
version = "0.1.0"
edition = "2021"
publish = false

[dependencies]
serde = { version = "=1.0.229", features = ["derive"] }
serde_json = "=1.0.154"
image = "=0.25.10"
ureq = "=2.12.1"
resvg = "=0.49.0"
usvg = "=0.49.0"
tiny-skia = "=0.12.0"
windows = { version = "=0.59.0", features = ["Win32_Foundation", "Win32_UI_Input_KeyboardAndMouse", "Win32_UI_WindowsAndMessaging", "Win32_System_Threading"] }
