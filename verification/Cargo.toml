[package]
name = "cargo_config"
version = "0.1.0"
edition = "2021"
publish = false

[dependencies]
which = "*"
simple-home-dir = "*"
clap = { version = "*", features = ["derive"] }
miette = { version = "*", features = ["fancy"] }
owo-colors = "*"
