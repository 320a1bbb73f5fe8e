[package]
name = "texture_array_probe"
version = "0.1.0"
edition = "2021"
publish = false

[dependencies]
gleam = "0.9"
glutin = "0.19"
