[package]
name = "pointer_utils"
version = "0.1.0"
edition = "2021"

[dependencies]
scopeguard = { version = "1", default-features = false }
