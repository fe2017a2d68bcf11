[package]
name = "sand_game"
version = "0.1.0"
edition = "2021"
publish = false

[dependencies]
bytemuck = { version = "1", features = ["derive"] }
pollster = "0.3"
wgpu = { version = "0.19", default-features = false, features = ["wgsl"] }
