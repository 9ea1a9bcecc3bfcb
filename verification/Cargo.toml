[package]
name = "mediachat_native"
version = "0.1.0"
edition = "2021"
publish = false

[dependencies]
anyhow = "1"
clap = { version = "4", default-features = false, features = ["std", "derive", "env", "help", "usage", "error-context"] }
egui = "=0.29.1"
env_logger = { version = "0.11", default-features = false }
ffmpeg-next = { version = "4.4", default-features = false, features = ["codec", "format", "software-scaling"] }
image = { version = "=0.25.10", default-features = false, features = ["bmp", "dds", "exr", "ff", "gif", "hdr", "ico", "jpeg", "png", "pnm", "qoi", "tga", "tiff", "webp"] }
log = "0.4"
reqwest = { version = "0.12", default-features = false, features = ["blocking", "default-tls"] }
rust_socketio = { version = "0.6", default-features = false, features = ["async"] }
serde = { version = "1", features = ["derive"] }
serde_json = "1"
tempfile = "3"
tokio = { version = "1", default-features = false, features = ["rt-multi-thread", "signal"] }
winapi = { version = "0.3", features = ["winuser"] }
