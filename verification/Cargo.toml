[package]
name = "kapto"
version = "0.1.0"
edition = "2021"
publish = false

[dependencies]
matrix = "*"
bitflags = "1"
enum-iterator = "0.7"
