[package]
name = "piet_wgpu"
version = "0.1.0"
edition = "2021"
publish = false

[dependencies]
hashbrown = "0.9"
linked-hash-map = "0.5"
sha2 = "0.10"
bytemuck = { version = "1", features = ["derive"] }
glow = "0.11"
lyon = "0.17"
piet = "0.6"
swash = "0.1"
resvg = "0.22"
usvg = "0.22"
tiny-skia = "0.6"
parley = "*"
