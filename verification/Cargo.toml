[package]
name = "data_pipes"
version = "0.1.0"
edition = "2021"
publish = false

[dependencies]
polars = { version = "0.32", default-features = false, features = ["lazy"] }
serde = { version = "1", features = ["derive"] }
serde-wasm-bindgen = "*"
wasm-bindgen = "0.2"
console_error_panic_hook = "0.1"
