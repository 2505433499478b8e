[package]
name = "trust"
version = "0.1.0"
edition = "2021"
publish = false

[dependencies]
atty = "0.2"
libc = "0.2"
term_size = "0.3"
