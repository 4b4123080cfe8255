[package]
name = "whisplay-launcher"
version = "0.1.0"
edition = "2021"
publish = false

[dependencies]
embedded-graphics = "0.8"
image = { version = "0.25", default-features = false, features = ["png", "jpeg", "bmp", "ico"] }
libc = "0.2"
rppal = "*"
serde = { version = "1", features = ["derive"] }
serde_json = "1"
signal-hook = "0.3"
u8g2-fonts = "0.4"
