[package]
name = "vm16"
version = "0.1.0"
edition = "2021"
publish = false

[dependencies]
itertools = "*"
clap = { version = "*", features = ["derive"] }
indicatif = "*"
rayon = "*"
