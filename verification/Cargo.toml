[package]
name = "mink"
version = "0.1.0"
edition = "2021"
publish = false

[dependencies]
bytemuck = "=1.25.2"
glam = "0.30"
image = { version = "0.25", default-features = false, features = ["png", "jpeg"] }
pollster = "0.4"
pyo3 = { version = "0.25", features = ["extension-module", "abi3-py39"] }
wgpu = { version = "25", default-features = false, features = ["wgsl", "vulkan"] }
winit = { version = "0.30", default-features = false, features = ["x11", "rwh_06"] }
