[package]
name = "tui-img"
version = "0.1.0"
edition = "2021"
publish = false

[dependencies]
image = { version = "=0.25.10", default-features = false, features = ["jpeg", "png", "webp", "gif", "tiff", "bmp", "tga"] }
oxipng = { version = "=9.1.5", default-features = false }
webp = "=0.3.1"
gif = "=0.14.2"
png = "=0.18.1"
anyhow = "=1.0.104"
crossterm = "=0.28.1"
ratatui = "=0.29.0"
rayon = "=1.12.0"
walkdir = "=2.5.0"
kamadak-exif = "=0.5.5"
memmap2 = "=0.9.12"
