[package]
name = "sound_manager_core"
version = "4.0.0"
edition = "2021"
publish = false

[dependencies]
aes = "0.8"
cbc = { version = "0.1", features = ["alloc", "block-padding"] }
cipher = { version = "0.4", features = ["alloc", "block-padding"] }
des = "0.8"
base64 = "0.22"
md-5 = "0.10"
image = { version = "0.25", default-features = false, features = ["png", "bmp", "jpeg", "gif"] }
zip = { version = "2", default-features = false, features = ["deflate"] }
urlencoding = "2"
symphonia = "0.5"
serde = { version = "1", features = ["derive"] }
serde_json = "1"
thiserror = "1"
once_cell = "1"
parking_lot = "0.12"
log = "0.4"
env_logger = "0.11"
anyhow = "1"
reqwest = { version = "0.12", default-features = false, features = ["json", "rustls-tls"] }
winreg = "0.52"
windows = { version = "0.58", features = ["Win32_Foundation", "Win32_Media_Audio", "Win32_UI_Shell", "Win32_System_LibraryLoader", "Win32_UI_WindowsAndMessaging", "Win32_System_Console"] }

[dev-dependencies]
hound = "3.5"
