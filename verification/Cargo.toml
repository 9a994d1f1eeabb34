[package]
name = "organic_chess"
version = "0.1.0"
edition = "2021"
publish = false

[dependencies]
owlchess = "*"
rand = "0.8"
libm = "0.2"
