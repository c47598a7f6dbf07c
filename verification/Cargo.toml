[package]
name = "ermis-call-node-wasm"
version = "0.1.0"
edition = "2021"
publish = false

[dependencies]
anyhow = "1"
base64 = "0.22"
bitcode = { version = "0.6", default-features = false, features = ["serde", "std"] }
bytes = "1"
flume = { version = "0.11", default-features = false, features = ["async"] }
futures = "0.3"
parking_lot = "0.12"
rand = "0.8"
serde = { version = "1", features = ["derive"] }
serde-wasm-bindgen = "0.6"
tokio = { version = "1", features = ["macros", "rt", "sync"] }
tokio-util = { version = "0.7", features = ["codec"] }
wasm-bindgen = "0.2"
wasm-bindgen-futures = "0.4"
