[package]
name = "java_runtimes"
version = "0.1.0"
edition = "2021"
publish = false

[dependencies]
serde = { version = "=1.0.229", features = ["derive"] }
walkdir = "=2.5.0"

[dev-dependencies]
regex = "1"
