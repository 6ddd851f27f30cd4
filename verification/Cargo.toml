[package]
name = "frame_engine"
version = "0.1.0"
edition = "2021"
publish = false

[dependencies]
bytemuck = "1"
cgmath = "0.18"
image = { version = "0.24", default-features = false }
log = "0.4"
wgpu = "0.17"
winit = { version = "0.28", default-features = false, features = ["x11"] }
