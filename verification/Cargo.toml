[package]
name = "vcd"
version = "0.1.0"
edition = "2021"
publish = false

[dependencies]
chrono = "*"
rayon = "*"

[dev-dependencies]
serde_json = "*"
