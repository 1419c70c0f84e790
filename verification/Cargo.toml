[package]
name = "mcm_render"
version = "0.1.0"
edition = "2021"
publish = false

[dependencies]
bytemuck = "1"
futures-intrusive = "0.5"
pollster = "0.2"
rand = "0.8"
serde = { version = "1", features = ["derive"] }
toml = "0.5"
wgpu = "0.14"
