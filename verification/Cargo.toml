[package]
name = "simple_jingle"
version = "0.1.0"
edition = "2021"
publish = false

[dependencies]
hound = "=3.5.1"
image = { version = "=0.25.10", default-features = false, features = ["png", "jpeg"] }
muda = "=0.21.2"
rodio = "=0.23.0"
tray-icon = "=0.26.1"
windows = { version = "=0.58.0", features = ["Win32_Foundation", "Win32_System_Com", "Win32_System_Console", "Win32_UI_Input_KeyboardAndMouse", "Win32_UI_WindowsAndMessaging", "Win32_UI_Accessibility"] }
zeroize = "=1.9.1"

[dev-dependencies]
windows-sys = { version = "=0.61.2", features = ["Win32_UI_Input_KeyboardAndMouse"] }
