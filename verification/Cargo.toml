[package]
name = "rustshot"
version = "1.0.0"
edition = "2021"
publish = false

[dependencies]
global-hotkey = "=0.7.0"
image = { version = "=0.25.10", default-features = false, features = ["png", "jpeg"] }
directories = "=6.0.0"
chrono = "=0.4.45"
anyhow = "=1.0.104"
serde = { version = "=1.0.229", features = ["derive"] }
toml = "=1.1.8"
winit = { version = "0.30", default-features = false, features = ["x11", "rwh_06"] }
softbuffer = { version = "0.4", default-features = false, features = ["x11"] }
tray-icon = { version = "*", default-features = false }
rfd = { version = "*", default-features = false, features = ["gtk3"] }
fontdue = "*"
tiny-skia = { version = "*", default-features = false, features = ["std"] }
windows = { version = "*", features = ["Win32_Foundation", "Win32_Graphics_Gdi", "Win32_Security", "Win32_Storage_FileSystem", "Win32_Storage_Xps", "Win32_System_DataExchange", "Win32_System_LibraryLoader", "Win32_System_Memory", "Win32_System_Ole", "Win32_System_Threading", "Win32_UI_Controls", "Win32_UI_Controls_Dialogs", "Win32_UI_Input_KeyboardAndMouse", "Win32_UI_Shell", "Win32_UI_WindowsAndMessaging"] }
