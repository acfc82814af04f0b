[package]
name = "svg_core"
version = "0.1.0"
edition = "2021"
publish = false

[dependencies]
lyon = "*"
rusttype = "*"
palette = "*"
glium = "*"
resvg = { version = "*", default-features = false }
