[package]
name = "super_inference"
version = "0.1.0"
edition = "2021"
publish = false

[dependencies]
flate2 = "1"
libc = "0.2"
metal = "0.29"
serde = { version = "1", features = ["derive"] }
serde_json = "1"
