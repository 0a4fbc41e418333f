[package]
name = "snapshelf"
version = "0.1.0"
edition = "2021"
publish = false

[dependencies]
windows-sys = { version = "0.59", features = ["Win32_Foundation", "Win32_System_DataExchange", "Win32_System_Memory", "Win32_System_Ole", "Win32_UI_Shell", "Win32_UI_WindowsAndMessaging", "Win32_UI_Input_KeyboardAndMouse", "Win32_Graphics_Gdi"] }
image = { version = "0.25", default-features = false, features = ["png", "jpeg", "webp", "gif"] }
raw-window-handle = "0.6"
drag = "*"
window-vibrancy = "*"
tray-icon = "*"
