[package]
name = "flexcan"
version = "0.1.0"
edition = "2021"
publish = false

[dependencies]
bit_field = "*"
embedded_types = "*"
s32k144 = "*"
