[package]
name = "wgpu_bezier"
version = "0.1.0"
edition = "2021"
publish = false

[dependencies]
bytemuck = { version = "1", features = ["derive"] }
enum-map = "2"
swf = "*"
tracing = "0.1"
wgpu = "27"
