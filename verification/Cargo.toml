[package]
name = "glint"
version = "0.1.0"
edition = "2021"
publish = false

[dependencies]
lru = "=0.19.0"
image = { version = "=0.25.10", default-features = false, features = ["png", "jpeg", "gif", "bmp", "tiff", "webp"] }
kamadak-exif = "=0.6.1"
anyhow = "=1.0.104"
log = "=0.4.35"
env_logger = "=0.11.11"
egui = "=0.31.1"
eframe = { version = "=0.31.1", default-features = false, features = ["default_fonts", "glow", "x11"] }
rfd = "=0.17.2"
notify = "=8.2.1"
rusqlite = "=0.41.1"
dirs = "=7.0.0"
crossbeam-channel = "=0.5.17"
bytemuck = "=1.25.2"
windows = { version = "=0.58.0", features = ["Win32_Foundation", "Win32_System_Com", "Win32_UI_Shell"] }
