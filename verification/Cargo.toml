[package]
name = "grapher"
version = "0.1.0"
edition = "2021"
publish = false

[dependencies]
ndarray = "0.15"
image = { version = "0.24", default-features = false, features = ["png"] }
