[package]
name = "fractal_render"
version = "0.1.0"
edition = "2021"
publish = false

[dependencies]
color_processing = "*"
image = { version = "*", default-features = false, features = ["png", "jpeg", "bmp"] }
num = "*"
serde = { version = "1", features = ["derive"] }
toml = "*"
