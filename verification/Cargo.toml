[package]
name = "num2words"
version = "0.1.0"
edition = "2021"
publish = false

[dependencies]
num-bigfloat = { version = "1.7", default-features = false }
