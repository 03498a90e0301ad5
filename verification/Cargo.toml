[package]
name = "peroxide"
version = "0.1.0"
edition = "2021"
publish = false

[dependencies]
sha3 = "=0.12.0"
base64 = "=0.23.1"
jsonwebtoken = { version = "=11.1.0", features = ["rust_crypto"] }
rand = "=0.10.3"
