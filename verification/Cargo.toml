[package]
name = "lama_blanket"
version = "0.1.0"
edition = "2021"
publish = false

[dependencies]
ash = "0.38"
image = { version = "0.25", default-features = false, features = ["png", "jpeg", "webp"] }
num_cpus = "1"
nvml-wrapper = "0.10"
open = "5"
raw-window-handle = "0.6"
rfd = { version = "0.15", default-features = false, features = ["gtk3"] }
serde = { version = "1", features = ["derive"] }
serde_json = "1"
thiserror = "1"
windows-sys = { version = "0.52", features = ["Win32_Foundation", "Win32_UI_WindowsAndMessaging"] }
winreg = "0.52"
