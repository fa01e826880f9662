[package]
name = "vellum_core"
version = "0.1.0"
edition = "2021"
publish = false

[dependencies]
ropey = { version = "=1.6.1", default-features = false, features = ["simd"] }
unicode-segmentation = "=1.13.3"
crossterm = "=0.29.0"
serde = { version = "=1.0.229", features = ["derive"] }
