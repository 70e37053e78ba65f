[package]
name = "nlopt"
version = "0.1.0"
edition = "2021"
publish = false

[dependencies]
enum_primitive = "0.1"
libc = "0.2"
