[package]
name = "iconwriter"
version = "0.1.0"
edition = "2021"
publish = false

[dependencies]
ico = "*"
icns = "*"
image = "*"
resvg = "*"
