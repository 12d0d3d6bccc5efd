[package]
name = "whilec"
version = "0.1.0"
edition = "2021"
publish = false

[dependencies]
logos = "*"
clap = { version = "4", features = ["derive"] }
