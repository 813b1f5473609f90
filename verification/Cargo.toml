[package]
name = "alacritty"
version = "0.1.0"
edition = "2021"
publish = false

[dependencies]
nanoargs = "=0.6.0"
toml = "=1.1.8"
unicode-width = "=0.2.3"
log = "=0.4.35"
nanologger = { version = "=0.1.1", features = ["log"] }
serde = { version = "=1.0.229", features = ["derive"] }
serde_json = "=1.0.154"
dirs = "=7.0.0"
rustix = { version = "=1.1.6", features = ["fs", "process", "pty", "stdio", "termios"] }
signal-hook = "=0.4.6"
polling = "=3.11.0"
x11rb = "=0.14.0"
smithay-clipboard = "=0.7.3"
winit = "=0.30.13"
wgpu = { version = "=30.0.1", default-features = false, features = ["vulkan", "wgsl", "std"] }
pollster = "=1.0.1"
bytemuck = { version = "=1.25.2", features = ["derive"] }
crossfont = "=0.9.0"
glutin = "=0.32.3"
windows-sys = { version = "=0.61.2", features = [
    "Win32_Foundation",
    "Win32_Security",
    "Win32_Storage_FileSystem",
    "Win32_System_DataExchange",
    "Win32_System_IO",
    "Win32_System_Memory",
    "Win32_System_Ole",
    "Win32_System_Threading",
    "Win32_UI_WindowsAndMessaging",
] }
