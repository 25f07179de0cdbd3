[package]
name = "alienv"
version = "1.0.0"
edition = "2021"
publish = false

[dependencies]
clap = "2"
dirs = "*"
