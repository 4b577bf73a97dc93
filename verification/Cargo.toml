[package]
name = "shdrr"
version = "0.1.0"
edition = "2021"
publish = false

[dependencies]
clap = "2"
notify = "4"
shaderc = "0.8"
