[package]
name = "toolbox"
version = "0.1.0"
edition = "2021"
publish = false

[dependencies]
chrono = { version = "0.4", default-features = false, features = ["std"] }
fasteval = "0.2"
getrandom = "0.2"
serde = { version = "1", features = ["derive"] }
wasm-bindgen = "0.2"
wee_alloc = "0.4"
yew = "0.17"
