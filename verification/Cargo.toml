[package]
name = "enginekit"
version = "0.1.0"
edition = "2021"

[dependencies]
glfw = "=0.51.0"
