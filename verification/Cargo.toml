[package]
name = "jb_gfx"
version = "0.1.0"
edition = "2021"
publish = false

[dependencies]
slotmap = "=1.1.1"
ash = "=0.37.3"
anyhow = "=1.0.104"
cgmath = "=0.18.0"
log = "=0.4.35"
winit = "=0.28.7"
env_logger = "=0.10.2"
image = { version = "=0.24.9", default-features = false, features = ["png", "jpeg"] }
jpeg-decoder = { version = "=0.3.2", default-features = false, features = ["platform_independent"] }
