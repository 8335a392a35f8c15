[package]
name = "dlss-updater"
version = "1.2.0"
edition = "2021"
publish = false

[dependencies]
atomic-write-file = "=0.3.1"
crossbeam-channel = "=0.5.17"
eframe = { version = "=0.37.0", default-features = false, features = ["default_fonts", "glow", "persistence", "x11"] }
egui_extras = { version = "=0.37.0", default-features = false }
jiff = "=0.2.39"
object = "=0.40.0"
reqwest = { version = "=0.13.5", default-features = false, features = ["blocking", "json", "rustls-no-provider"] }
rfd = { version = "=0.17.2", default-features = false, features = ["xdg-portal"] }
rustls = { version = "=0.23.46", default-features = false, features = ["ring", "std", "tls12"] }
serde = { version = "=1.0.229", features = ["derive"] }
serde_json = "=1.0.154"
sha2 = "=0.11.1"
thiserror = "=2.0.21"
tracing = "=0.1.44"
tracing-subscriber = { version = "=0.3.23", features = ["env-filter"] }
walkdir = "=2.5.0"
windows = { version = "*", features = ["Win32_Foundation", "Win32_Security_Cryptography", "Win32_Security_WinTrust", "Win32_Storage_FileSystem", "Win32_System_Com", "Win32_System_Threading", "Win32_UI_Shell", "Win32_UI_WindowsAndMessaging"] }
windows-registry = "=0.100.0"
zip = { version = "=9.2.2", default-features = false, features = ["deflate"] }
