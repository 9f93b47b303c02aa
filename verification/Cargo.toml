[package]
name = "vision_logic"
version = "0.1.0"
edition = "2021"
publish = false

[dependencies]
opencv = "0.88"
