[package]
name = "ray_tow"
version = "0.1.0"
edition = "2021"
publish = false

[dependencies]
glam = { version = "0.29", features = ["rand"] }
image = { version = "0.25", default-features = false, features = ["png"] }
indicatif = { version = "0.17", features = ["rayon"] }
itertools = "0.13"
rand = "0.8"
rand_distr = "0.4"
rayon = "1"
