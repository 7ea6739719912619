[package]
name = "ard-viewer"
version = "0.1.0"
edition = "2021"
publish = false

[dependencies]
aes-gcm = "=0.10.3"
sha2 = "=0.10.9"
getrandom = "=0.3.4"
bytemuck = "=1.25.2"
mp4 = "=0.14.0"
serde = { version = "=1.0.229", features = ["derive"] }
serde_json = "=1.0.154"
directories = "=6.0.0"
gethostname = "=1.1.0"
pollster = "=0.4.0"
wgpu = { version = "=27.0.1", default-features = false, features = ["wgsl"] }
iced = { version = "=0.14.0", default-features = false, features = ["wgpu", "advanced", "svg", "tokio", "x11"] }
windows = { version = "=0.58.0", features = ["Win32_Foundation", "Win32_Media_MediaFoundation", "Win32_System_Com"] }
objc2 = "=0.5.3"
