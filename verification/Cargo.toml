[package]
name = "groupic"
version = "0.1.0"
edition = "2021"
publish = false

[dependencies]
image = "*"
glyph_brush_layout = "*"
