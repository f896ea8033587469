[package]
name = "shield_core"
version = "0.1.0"
edition = "2021"
publish = false

[dependencies]
hex = "=0.4.3"
once_cell = "=1.21.4"
serde = { version = "=1.0.229", features = ["derive"] }
serde-wasm-bindgen = "=0.6.5"
wasm-bindgen = "=0.2.129"
