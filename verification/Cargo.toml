[package]
name = "hyte"
version = "0.1.0"
edition = "2021"
publish = false

[dependencies]
statrs = "*"
clap = { version = "*", features = ["derive", "env"] }
