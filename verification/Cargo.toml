[package]
name = "slime"
version = "0.1.0"
edition = "2021"
publish = false

[dependencies]
rand = "=0.8.8"
bytemuck = { version = "1", features = ["derive"] }
pollster = "0.3"
env_logger = "0.11"
wgpu = { version = "=0.15.1", default-features = false, features = ["wgsl"] }
winit = { version = "=0.27.5", default-features = false, features = ["x11"] }
