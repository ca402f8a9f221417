[package]
name = "glyph_atlas"
version = "0.1.0"
edition = "2021"
publish = false

[dependencies]
bytemuck = { version = "1", features = ["derive"] }
crossfont = "0.3"
env_logger = "0.9"
futures-util = "0.3"
regex = "1"
ringbuf = "0.2"
tokio = { version = "1", features = ["rt-multi-thread", "net", "time"] }
tokio-tungstenite = { version = "0.16", features = ["native-tls"] }
url = "2"
wgpu = "0.12"
winit = "0.26"
