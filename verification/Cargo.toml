[package]
name = "voxel_core"
version = "0.1.0"
edition = "2021"
publish = false

[dependencies]
anyhow = "1"
bincode = "1.3"
bytemuck = { version = "1", features = ["derive"] }
cgmath = { version = "0.18", features = ["serde"] }
enet = "0.3"
rlua = "0.19"
serde = { version = "1", features = ["derive"] }
signal-hook = "0.3"
wgpu = "*"
