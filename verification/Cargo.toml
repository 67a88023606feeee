[package]
name = "tiny_rust_server"
version = "0.1.0"
edition = "2021"
publish = false

[dependencies]
encoding_rs = "*"
mime_guess = "*"
