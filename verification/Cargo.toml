[package]
name = "obrero-core"
version = "0.1.0"
edition = "2021"
publish = false

[dependencies]
anyhow = "1"
embedded-hal = "1"
esp-idf-svc = "*"
midir = "*"
serde = { version = "1", features = ["derive"] }
serde-wasm-bindgen = "*"
serialport = { version = "4", default-features = false }
wasm-bindgen = "0.2"
