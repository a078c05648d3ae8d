[package]
name = "mondrian"
version = "0.1.0"
edition = "2021"
publish = false

[dependencies]
windows = { version = "=0.58.0", features = ["Win32_Foundation", "Win32_Graphics_Gdi", "Win32_UI_WindowsAndMessaging", "Win32_UI_Accessibility", "Win32_UI_Input_KeyboardAndMouse"] }
widestring = "=1.2.1"
lazy_static = "=1.5.1"
log = "=0.4.35"
serde = { version = "=1.0.229", features = ["derive"] }
crossbeam-channel = "=0.5.17"
winvd = "=0.0.49"
ico = "=0.6.0"
tray-icon = "=0.26.1"
