[package]
name = "image_changer"
version = "0.1.0"
edition = "2021"
publish = false

[dependencies]
image = { version = "0.24", default-features = false, features = ["png", "jpeg", "bmp", "gif"] }
num = "0.4"
path-clean = "*"
