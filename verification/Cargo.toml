[package]
name = "tw3d"
version = "0.1.0"
edition = "2021"
publish = false

[dependencies]
nom = "7"
nalgebra = { version = "0.33", default-features = false, features = ["std"] }
crossterm = "0.27"
