[package]
name = "wgpu_tidy"
version = "0.1.0"
edition = "2021"
publish = false

[dependencies]
encase = "0.10"
cgmath = "0.18"
image = { version = "0.25", default-features = false, features = ["png"] }
pollster = "0.4"
shader-slang = "*"
wgpu = { version = "24", default-features = false, features = ["wgsl"] }
winit = { version = "0.30", default-features = false, features = ["rwh_06", "x11"] }
