[package]
name = "slug"
version = "0.1.0"
edition = "2021"
publish = false

[dependencies]
rustybuzz = "*"
ttf-parser = "*"
bytemuck = { version = "*", features = ["derive"] }
glam = "*"
