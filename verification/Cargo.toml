[package]
name = "communication"
version = "0.1.0"
edition = "2021"
publish = false

[dependencies]
crossterm = "0.19"
lazy_static = "1.4"
