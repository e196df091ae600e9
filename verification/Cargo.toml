[package]
name = "endless_runner"
version = "0.1.0"
edition = "2021"
publish = false

[dependencies]
rustbitmap = "*"
rand = "0.8"
pixels = "0.9"
winit = "0.26"
winit_input_helper = "0.11"
rodio = { version = "0.15", default-features = false, features = ["wav"] }
