[package]
name = "shield_maker"
version = "0.1.0"
edition = "2021"
publish = false

[dependencies]
css-color-parser = "*"
