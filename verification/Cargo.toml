[package]
name = "m3u8_downloader_core"
version = "0.2.0"
edition = "2021"
publish = false

[dependencies]
m3u8-rs = "=6.0.1"
url = "=2.5.8"
hex = "=0.4.3"
sha2 = "=0.10.9"
aes = "=0.8.4"
cbc = "=0.1.2"
thiserror = "=2.0.21"
serde = { version = "=1.0.229", features = ["derive"] }
serde_json = "=1.0.154"
reqwest = { version = "=0.12.28", default-features = false, features = ["rustls-tls"] }
tokio = { version = "=1.54.1", features = ["rt-multi-thread", "fs", "io-util", "process", "sync", "time"] }
futures = "=0.3.34"
eframe = { version = "0.31", default-features = false, features = ["default_fonts", "glow", "x11"] }
egui = "0.31"
image = { version = "0.25", default-features = false, features = ["ico", "png"] }
