[package]
name = "opengl_rust"
version = "0.1.0"
edition = "2021"
publish = false

[dependencies]
egui = "0.31"
egui_glow = { version = "0.31", features = ["winit"] }
gl = "0.14"
glam = "0.29"
glutin = "0.32"
glutin-winit = "0.5"
image = { version = "0.25", default-features = false, features = ["png", "jpeg"] }
winit = "0.30"
