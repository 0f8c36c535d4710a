[package]
name = "aeroduct"
version = "0.1.0"
edition = "2021"
publish = false

[dependencies]
anyhow = "=1.0.104"
bytemuck = { version = "=1.25.2", features = ["derive"] }
dear-imgui-rs = "=0.17.0"
dear-imgui-wgpu = "=0.17.0"
dear-imguizmo = "=0.17.0"
dear-implot = "=0.17.0"
glam = "=0.34.2"
log = "0.4"
rfd = "=0.17.2"
wgpu = "=30.0.1"
winit = "=0.30.13"
