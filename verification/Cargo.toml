[package]
name = "speccomp"
version = "0.1.0"
edition = "2021"
publish = false

[dependencies]
rustfft = "*"
fixed = "*"
cordic = "*"
symphonia = { version = "*", default-features = false, features = ["mp3"] }
plotters = { version = "*", default-features = false, features = ["bitmap_backend", "bitmap_encoder", "line_series", "ab_glyph"] }
