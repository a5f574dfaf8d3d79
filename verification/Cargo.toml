[package]
name = "font_obfuscation"
version = "0.1.0"
edition = "2021"
publish = false

[dependencies]
clap = { version = "4", features = ["derive"] }
eyre = "0.6"
regex = "1"
sha = "*"
