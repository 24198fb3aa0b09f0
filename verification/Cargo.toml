[package]
name = "gltf_scene"
version = "0.1.0"
edition = "2021"
publish = false

[dependencies]
bytemuck = "*"
glam = "=0.34.1"
gltf = "=1.4.1"
