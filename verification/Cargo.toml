[package]
name = "channelled_callbacks"
version = "0.1.0"
edition = "2021"
publish = false

[dependencies]
cpu-time = "*"
