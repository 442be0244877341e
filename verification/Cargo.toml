[package]
name = "markflow"
version = "0.1.0"
edition = "2021"
publish = false

[dependencies]
comrak = { version = "*", default-features = false }
html5ever = "0.26"
parking_lot = "0.12"
rayon = "1"
tracing = "0.1"
