[package]
name = "coxswain"
version = "0.1.0"
edition = "2021"
publish = false

[dependencies]
libm = "0.2"
nalgebra = "0.33"
serde = { version = "1", features = ["derive"] }
