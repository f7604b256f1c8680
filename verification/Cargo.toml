[package]
name = "rust_finprim"
version = "0.1.0"
edition = "2021"
publish = false

[dependencies]
rust_decimal = { version = "1", features = ["maths"] }
serde = { version = "1", features = ["derive"] }
