[package]
name = "yazelix_screen"
version = "0.1.0"
edition = "2021"
publish = false

[dependencies]
crossterm = "*"
