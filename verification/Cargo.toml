[package]
name = "libcraft_blocks"
version = "0.1.0"
edition = "2021"
publish = false

[dependencies]
ahash = "0.8"
rand = "0.8"
