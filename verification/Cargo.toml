[package]
name = "madsim"
version = "0.1.0"
edition = "2021"
publish = false

[dependencies]
rand = { version = "=0.8.8", features = ["small_rng"] }
rand_xoshiro = "=0.6.0"
bincode = "=1.3.3"
ahash = "=0.8.12"
serde = { version = "=1.0.229", features = ["derive"] }
naive-timer = "=0.2.0"
libc = "=0.2.191"
