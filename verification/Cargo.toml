[package]
name = "wstp"
version = "0.1.0"
edition = "2021"
publish = false

[dependencies]
ref-cast = "1"
wolfram-expr = "*"
wstp-sys = "*"
