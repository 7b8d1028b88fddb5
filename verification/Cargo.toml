[package]
name = "kx-engine"
version = "0.1.0"
edition = "2021"
publish = false

[dependencies]
anyhow = "1"
ash = "0.38"
ash-window = "0.13"
ash-bootstrap = "*"
gpu-allocator = "0.27"
raw-window-handle = "0.6"
winit = "0.30"
