[package]
name = "dcx"
version = "0.1.0"
edition = "2021"
publish = false

[dependencies]
flate2 = "1"
dlopen = "0.1"
dlopen_derive = "0.1"
libc = "0.2"
