[package]
name = "streamdeck-cona-rs"
version = "0.1.0"
edition = "2021"
publish = false

[dependencies]
image = { version = "0.25", default-features = false, features = ["jpeg", "png", "gif", "bmp", "ico", "webp", "tiff", "pnm", "tga", "qoi", "hdr"] }
tokio = { version = "1", features = ["full"] }
thiserror = "*"
env_logger = "*"
log = "0.4"
