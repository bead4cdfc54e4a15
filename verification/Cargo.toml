[package]
name = "pathpack"
version = "0.1.0"
edition = "2021"
publish = false

[dependencies]
hassle-rs = "*"
kurbo = "*"
pathbreaker = "*"
usvg = "*"
