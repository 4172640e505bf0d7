[package]
name = "wr_glyph_rasterizer"
version = "0.1.0"
edition = "2021"
publish = false

[dependencies]
core-foundation = { version = "0.10", default-features = false }
core-graphics = { version = "0.24", default-features = false }
core-text = { version = "21", default-features = false }
objc = "=0.2.7"
