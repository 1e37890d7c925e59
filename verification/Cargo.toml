[package]
name = "evosim"
version = "0.1.0"
edition = "2021"
publish = false

[dependencies]
rand = "0.8"
rand_chacha = "0.3"
nalgebra = { version = "0.31", features = ["rand"] }
serde = { version = "1", features = ["derive"] }
