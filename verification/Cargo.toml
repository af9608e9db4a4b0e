[package]
name = "fx"
version = "0.0.6"
edition = "2021"
publish = false

[dependencies]
clap = "2"
regex = "1"
