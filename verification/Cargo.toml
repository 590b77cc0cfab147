[package]
name = "reactor_core"
version = "0.1.0"
edition = "2021"
publish = false

[dependencies]
polling = "3"
colored = "2"
libc = "0.2"
