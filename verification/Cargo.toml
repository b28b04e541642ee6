[package]
name = "unlit3d"
version = "0.1.0"
edition = "2021"
publish = false

[dependencies]
arrayvec = "=0.7.8"
egui = { version = "0.36", default-features = false }
glam = "=0.34.2"
hashbrown = "=0.17.1"
log = "0.4"
web-time = "1"
wgpu = { version = "=30.0.1", default-features = false, features = ["std"] }
winit = { version = "=0.30.13", default-features = false, features = ["x11", "rwh_06"] }
zerocopy = "=0.8.63"
