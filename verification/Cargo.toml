[package]
name = "surgeist_render"
version = "0.1.0"
edition = "2021"
publish = false

[dependencies]
wgpu = { version = "28", default-features = false, features = ["std", "wgsl"] }
