[package]
name = "saturation"
version = "0.1.0"
edition = "2021"
publish = false

[dependencies]
indexmap = "2"
log = "0.4"
serde = { version = "1", features = ["derive"] }
