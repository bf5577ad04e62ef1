[package]
name = "rasterm"
version = "0.1.0"
edition = "2021"
publish = false

[dependencies]
glam = "=0.30.10"
anyhow = "=1.0.104"
crossterm = "=0.29.0"
image = { version = "=0.25.10", default-features = false, features = ["png", "jpeg", "bmp"] }
rayon = "=1.12.0"
