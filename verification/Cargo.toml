[package]
name = "rune_c"
version = "0.1.0"
edition = "2021"
publish = false

[dependencies]
clap = { version = "=4.6.7", features = ["derive"] }
rune_parser = "=0.6.2"
