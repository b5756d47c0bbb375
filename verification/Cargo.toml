[package]
name = "shooter"
version = "0.1.0"
edition = "2021"
publish = false

[dependencies]
nalgebra = "*"
rand = "*"
rand_distr = "*"
serde = { version = "*", features = ["derive"] }
serde_json = "*"
