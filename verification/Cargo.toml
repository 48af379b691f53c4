[package]
name = "wasm_merge"
version = "0.1.0"
edition = "2021"
publish = false

[dependencies]
wasmparser = "*"
wasm-encoder = { version = "*", features = ["wasmparser"] }

[dev-dependencies]
wat = "*"
