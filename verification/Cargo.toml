[package]
name = "vector_pipeline"
version = "0.1.0"
edition = "2021"
publish = false

[dependencies]
glow = "0.12"
glutin = "0.29"
image = "0.24"
