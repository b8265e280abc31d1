[package]
name = "inheritance"
version = "0.1.0"
edition = "2021"
publish = false

[dependencies]
ambassador = "*"
delegate = "*"
