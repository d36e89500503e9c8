[package]
name = "limbo"
version = "0.1.0"
edition = "2021"
publish = false

[dependencies]
morton = "=0.3.1"
nalgebra = "=0.35.0"
