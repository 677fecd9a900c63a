[package]
name = "rough_compose"
version = "0.1.0"
edition = "2021"
publish = false

[dependencies]
kurbo = "*"
nalgebra = "*"
parry2d-f64 = "*"
piet = "*"

[dev-dependencies]
rand = "0.8"
rand_pcg = "0.3"
