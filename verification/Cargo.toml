[package]
name = "bytecode"
version = "0.1.0"
edition = "2021"
publish = false

[dependencies]
base64 = "0.13"
resast = "0.2"
