[package]
name = "c-ares"
version = "0.1.0"
edition = "2021"
publish = false

[dependencies]
c-ares-sys = "=13.0.0"
c-types = "=6.0.0"
libc = "=0.2.191"
