[package]
name = "seff"
version = "0.1.0"
edition = "2021"
publish = false

[dependencies]
aho-corasick = "0.7"
clap = { version = "3", features = ["derive"] }
image = { version = "0.24", default-features = false, features = ["png"] }
ron = "0.8"
