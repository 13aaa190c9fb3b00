[package]
name = "econ_bridge"
version = "0.1.0"
edition = "2021"
publish = false

[dependencies]
rand = { version = "0.8", features = ["small_rng"] }
rand_distr = "0.4"
seahash = "4"
telnet = "0.2"
clap = { version = "4", features = ["derive"] }
log = "0.4"
simple_logger = "*"
itertools = "*"
serde = { version = "1", features = ["derive"] }

[dev-dependencies]
regex = "1"
