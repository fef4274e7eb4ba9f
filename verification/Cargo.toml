[package]
name = "sigen"
version = "0.1.0"
edition = "2021"
publish = false

[dependencies]
clap = { version = "4", features = ["derive"] }
hound = "3"
indexmap = "2"
rand = "0.8"
rustfft = "6"
