[package]
name = "boid"
version = "0.1.0"
edition = "2021"
publish = false

[dependencies]
rand = { version = "0.8", features = ["small_rng"] }
embedded-graphics = "0.6"
micromath = "1"
