[package]
name = "quarkdrive_windows"
version = "0.1.0"
edition = "2021"
publish = false

[dependencies]
anyhow = "=1.0.104"
base64 = "=0.22.1"
clap = { version = "=4.6.7", features = ["derive"] }
dirs = "=6.0.0"
httpdate = "=1.0.3"
md-5 = "0.11"
qrcode = { version = "=0.14.1", default-features = false }
reqwest = { version = "=0.12.28", default-features = false, features = ["blocking", "cookies", "json", "rustls-tls"] }
serde = { version = "=1.0.229", features = ["derive"] }
serde_json = "=1.0.154"
sha1 = "0.11"
thiserror = "=2.0.21"
tracing = "=0.1.44"
tracing-subscriber = { version = "=0.3.23", features = ["env-filter"] }
windows = { version = "=0.62.2", features = ["Storage", "Storage_Provider", "Win32_Foundation", "Win32_Graphics_Gdi", "Win32_Security", "Win32_Storage_CloudFilters", "Win32_Storage_FileSystem", "Win32_System_Com", "Win32_System_Console", "Win32_System_CorrelationVector", "Win32_System_LibraryLoader", "Win32_System_Threading", "Win32_UI_Input_KeyboardAndMouse", "Win32_UI_Shell", "Win32_UI_WindowsAndMessaging"] }
winreg = "=0.55.0"
