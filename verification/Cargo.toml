[package]
name = "stepper_arm"
version = "0.1.0"
edition = "2021"
publish = false

[dependencies]
bit-vec = "*"
rppal = "*"
