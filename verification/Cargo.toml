[package]
name = "map_elites_rust"
version = "0.1.0"
edition = "2021"
publish = false

[dependencies]
rand = "0.8"
rand_pcg = "0.3"
ndarray = "0.15"
ndarray-rand = "0.14"
clap = { version = "4", features = ["derive"] }
env_logger = "0.10"
