[package]
name = "ironfish_core"
version = "0.1.0"
edition = "2021"
publish = false

[dependencies]
blake2s_simd = "1.0"
bls12_381 = "0.8"
ff = "0.13"
group = "0.13"
hex = "0.4"
jubjub = "0.10"
rand = "0.8"
sapling-crypto = "0.1"
wasm-bindgen = "0.2"
js-sys = "0.3"
web-sys = { version = "0.3", features = ["console"] }
serde = { version = "1.0", features = ["derive"] }
serde-wasm-bindgen = "0.6"
