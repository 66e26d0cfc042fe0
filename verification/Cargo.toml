[package]
name = "vortex_row"
version = "0.1.0"
edition = "2021"
publish = false

[dependencies]
num-traits = "=0.2.19"
geo = "=0.33.1"
geo-types = "=0.7.20"
half = { version = "2", features = ["num-traits"] }
