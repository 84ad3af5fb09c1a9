[package]
name = "glquad"
version = "0.1.0"
edition = "2021"
publish = false

[dependencies]
image = "0.24"
gl = "0.14"
glutin = "0.29"
