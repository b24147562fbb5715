[package]
name = "evosim"
version = "0.1.0"
edition = "2021"
publish = false

[dependencies]
rand = "=0.8.8"
rand_chacha = "=0.3.1"
nalgebra = { version = "=0.32.6", features = ["rand"] }
approx = "=0.5.1"
serde = { version = "=1.0.229", features = ["derive"] }
wasm-bindgen = "=0.2.129"
serde-wasm-bindgen = "=0.6.5"
