[package]
name = "tilefilm"
version = "0.1.0"
edition = "2021"
publish = false

[dependencies]
rand = { version = "=0.8.8", features = ["small_rng"] }
image = "*"
rayon = "1"
num_cpus = "1"
pbr = "*"
wide = "*"
