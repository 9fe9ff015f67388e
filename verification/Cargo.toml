[package]
name = "annotator"
version = "0.1.0"
edition = "2021"
publish = false

[dependencies]
image = { version = "0.25", default-features = false, features = ["png", "jpeg"] }
imageproc = { version = "0.25", default-features = false }
ab_glyph = "0.2"
egui = "0.31"
eframe = { version = "0.31", default-features = false, features = ["glow", "default_fonts", "x11"] }
egui_extras = { version = "0.31", default-features = false, features = ["svg"] }
font-kit = "0.14"
