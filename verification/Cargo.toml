[package]
name = "orblib"
version = "0.1.0"
edition = "2021"
publish = false

[dependencies]
anyhow = "1"
bytemuck = { version = "1", features = ["derive"] }
cgmath = "0.18"
env_logger = "0.11"
log = "0.4"
num = "0.4"
pollster = "0.4"
scilib = "*"
wgpu = "26"
winit = "0.30"
