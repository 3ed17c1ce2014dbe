[package]
name = "cube_rig"
version = "0.1.0"
edition = "2021"
publish = false

[dependencies]
ash = "0.38"
ash-window = "0.13"
bytemuck = { version = "1", features = ["derive"] }
egui = { version = "0.31", default-features = false }
fbxcel-dom = "0.0.10"
glam = { version = "0.29", features = ["bytemuck", "serde"] }
gltf = "1"
gpu-allocator = { version = "0.27", default-features = false, features = ["vulkan"] }
raw-window-handle = "0.6"
serde = { version = "1", features = ["derive"] }
serde_json = "1"
tobj = "4"
tracing = "0.1"
winit = { version = "0.30", default-features = false, features = ["rwh_06", "x11"] }
