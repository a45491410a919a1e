[package]
name = "todosh"
version = "1.0.0"
edition = "2021"
publish = false

[dependencies]
clap = "2"
csv = "1"
tabled = "*"
