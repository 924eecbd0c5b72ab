[package]
name = "identity_core"
version = "0.1.0"
edition = "2021"
publish = false

[dependencies]
rand = "0.8"
anyhow = "1"
diesel = { version = "2", features = ["postgres"] }
rocket = { version = "0.5", features = ["secrets"] }
