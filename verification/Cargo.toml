[package]
name = "pagecut"
version = "0.1.0"
edition = "2021"
publish = false

[dependencies]
clap = "*"
image = "*"
serde_json = "*"
