[package]
name = "parametric_lod"
version = "0.1.0"
edition = "2021"
publish = false

[dependencies]
glam = "=0.29.3"
bytemuck = "=1.25.2"
anyhow = "1"
encase = { version = "0.10", features = ["glam"] }
glamour = "*"
pollster = "*"
tracing = "0.1"
tracing-subscriber = "0.3"
wgpu = "23"
wgpu-profiler = "0.19"
winit = "0.30"
winit_input_helper = "*"
