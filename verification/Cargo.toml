[package]
name = "wasmdec"
version = "0.1.0"
edition = "2021"

[dev-dependencies]
leb128 = "*"
