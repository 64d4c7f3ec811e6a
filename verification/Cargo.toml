[package]
name = "lottie_core"
version = "0.1.0"
edition = "2021"
publish = false

[dependencies]
base64 = "*"
serde = { version = "*", features = ["derive"] }
serde_json = "*"
kurbo = "*"
glam = "*"
noise = "*"
keyframe = "*"
anyhow = "*"
ndarray = "*"
symphonia = "*"
