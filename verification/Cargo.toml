[package]
name = "ratatui_image"
version = "0.1.0"
edition = "2021"
publish = false

[dependencies]
base64-simd = "0.8"
image = { version = "0.25", default-features = false }
rand = "0.9"
ratatui = { version = "0.29", default-features = false }
rustix = { version = "1", features = ["termios", "shm", "fs", "stdio"] }
serde = { version = "1", features = ["derive"] }
windows = { version = "0.58", features = ["Win32_Foundation", "Win32_Security", "Win32_Storage_FileSystem", "Win32_System_Console"] }

[dev-dependencies]
flate2 = "1"
