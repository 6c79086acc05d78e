[package]
name = "fractaller"
version = "0.1.0"
edition = "2021"
publish = false

[dependencies]
cgmath = "*"
fontdue = "*"
image = { version = "*", default-features = false, features = ["png"] }
rayon = "*"
