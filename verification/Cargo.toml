[package]
name = "freelook_camera"
version = "0.1.0"
edition = "2021"
publish = false

[dependencies]
gl = "*"
glfw = "*"
nalgebra-glm = "*"
stb_image = "*"
