[package]
name = "dr_ones"
version = "0.1.0"
edition = "2021"
publish = false

[dependencies]
crossbeam-channel = "*"
indexmap = "*"
rand = "*"
serde = { version = "*", features = ["derive"] }
toml = "*"
