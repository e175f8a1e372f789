[package]
name = "cpu_renderer"
version = "0.1.0"
edition = "2021"
publish = false

[dependencies]
rand = { version = "0.8", features = ["small_rng"] }
anyhow = "1"
argh = "0.1"
image = { version = "0.24", default-features = false, features = ["pnm"] }
rayon = "1"
