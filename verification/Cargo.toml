[package]
name = "framepix"
version = "0.1.0"
edition = "2021"
publish = false

[dependencies]
anyhow = "*"
image = { version = "0.23", default-features = false, features = ["tga"] }
