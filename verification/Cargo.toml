[package]
name = "simulation"
version = "0.1.0"
edition = "2021"
publish = false

[dependencies]
clap = { version = "*", default-features = false, features = ["derive", "std", "help", "usage", "error-context"] }
indicatif = { version = "*", default-features = false }
kiss3d = { version = "=0.35.0", default-features = false }
nalgebra = "*"
rayon = "*"

[dev-dependencies]
proptest = { version = "*", default-features = false, features = ["std"] }
