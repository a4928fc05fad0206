[package]
name = "public_api"
version = "0.1.0"
edition = "2021"
publish = false

[dependencies]
serde = { version = "=1.0.229", features = ["derive"] }
serde_json = "=1.0.151"
worker = { version = "=0.8.7", features = ["d1"] }
js-sys = "=0.3.106"
wasm-bindgen = "=0.2.129"
