[package]
name = "ants"
version = "0.1.0"
edition = "2021"
publish = false

[dependencies]
bytemuck = { version = "1", features = ["derive"] }
glam = "0.27"
image = { version = "0.25", default-features = false, features = ["png"] }
pollster = "0.3"
rand = "0.8"
