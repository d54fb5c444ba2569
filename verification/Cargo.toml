[package]
name = "qs_client"
version = "0.1.0"
edition = "2021"
publish = false

[dependencies]
async-trait = "0.1"
bytemuck = "1"
cgmath = "0.17"
find_folder = "0.3"
futures = "0.3"
image = "0.23"
itertools = "0.9"
lazy_static = "1.4"
rusttype = { version = "0.9", features = ["gpu_cache"] }
serde = { version = "1", features = ["derive"] }
serde_json = "1"
stretch = "0.3"
tokio = { version = "1", features = ["fs", "io-util", "rt-multi-thread", "sync"] }
tracing = "0.1"
tracing-subscriber = "0.2"
wgpu = "0.6"
winit = "0.23"
