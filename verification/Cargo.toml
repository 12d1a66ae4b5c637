[package]
name = "foxglove"
version = "0.1.0"
edition = "2021"
publish = false

[dependencies]
bytes = "1"
prost = "0.13"
prost-types = "0.13"

[dev-dependencies]
serde_json = "1"
