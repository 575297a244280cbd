[package]
name = "mctool"
version = "0.1.0"
edition = "2021"
publish = false

[dependencies]
anyhow = "=1.0.104"
image = { version = "=0.25.10", default-features = false, features = ["png"] }
sdl2 = { version = "=0.38.0", features = ["image", "ttf"] }
serde_json = "=1.0.154"
windows = { version = "=0.59.0", features = ["Win32_Foundation", "Win32_UI_Input_KeyboardAndMouse", "Win32_UI_WindowsAndMessaging"] }
