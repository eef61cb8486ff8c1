[package]
name = "resource_paths"
version = "0.1.0"
edition = "2021"
publish = false

[dependencies]
glob = "=0.3.4"
walkdir = "=2.5.0"

[dev-dependencies]
rustix = { version = "=1.1.5", features = ["fs", "process"] }
tempfile = "=3.27.0"
