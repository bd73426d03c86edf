[package]
name = "svg2font"
version = "0.1.0"
edition = "2021"
publish = false

[dependencies]
anyhow = "=1.0.104"
clap = { version = "=4.6.7", features = ["derive"] }
kurbo = "=0.13.1"
usvg = { version = "=0.49.0", default-features = false }
walkdir = "=2.5.0"
write-fonts = { version = "=0.55.0", features = ["read"] }
