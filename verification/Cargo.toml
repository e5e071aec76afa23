[package]
name = "breakout"
version = "0.1.0"
edition = "2021"
publish = false

[dependencies]
env_logger = "*"
freetype = "*"
gl = "0.14"
glfw = "*"
log = "0.4"
nalgebra-glm = "*"
