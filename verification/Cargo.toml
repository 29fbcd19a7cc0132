[package]
name = "uint_vec"
version = "0.1.0"
edition = "2021"
publish = false

[dependencies]
subtle = "2"
