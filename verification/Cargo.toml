[package]
name = "target_range"
version = "0.1.0"
edition = "2021"
publish = false

[dependencies]
rand = { version = "0.8", features = ["small_rng"] }
rapier3d = "0.11"
chrono = "0.4"
instant = "0.1"
