[package]
name = "cosmetics"
version = "0.1.0"
edition = "2021"
publish = false

[dependencies]
libblur = "=0.24.0"
image = { version = "=0.25.10", default-features = false, features = ["bmp", "dds", "ff", "gif", "hdr", "ico", "jpeg", "png", "pnm", "qoi", "tga", "tiff", "webp"] }
cosmic-text = "=0.19.0"
bytemuck = "=1.25.2"
num-traits = "=0.2.19"
