[package]
name = "dem_sim"
version = "0.1.0"
edition = "2021"
publish = false

[dependencies]
flatbuffers = "23.5"
bytemuck = { version = "1.13", features = ["derive"] }
rand = "0.8"
wgpu = "0.16"
winit = "0.28"
egui = "0.22"
egui_wgpu_backend = "0.24"
egui_winit_platform = "0.19"
cgmath = "0.18"
chrono = "0.4"
image = { version = "0.24", default-features = false, features = ["png"] }
async-std = "1.12"
env_logger = "0.10"
log = "0.4"
