[package]
name = "taiko"
version = "0.1.0"
edition = "2021"
publish = false

[dependencies]
rustc-hash = "1"
clap = "3"
rustyline = "9"
