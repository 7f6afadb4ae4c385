[package]
name = "draft-render"
version = "0.1.0"
edition = "2021"
publish = false

[dependencies]
anyhow = "1"
glam = "*"
gltf = "1"
image = { version = "0.25", default-features = false, features = ["png", "jpeg", "bmp", "tga"] }
minifb = "*"
rayon = "1"
fastrand = "2"
num-traits = "0.2"
zerocopy = { version = "0.8", features = ["derive"] }
