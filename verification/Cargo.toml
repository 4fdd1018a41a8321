[package]
name = "stager"
version = "0.4.0"
edition = "2021"
publish = false

[dependencies]
globwalk = "=0.3.1"
kstring = "=2.0.2"
liquid = "=0.26.11"
serde = { version = "=1.0.229", features = ["derive"] }

[dev-dependencies]
tempfile = "=3.10.1"
