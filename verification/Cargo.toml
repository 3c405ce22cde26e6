[package]
name = "console_core"
version = "0.1.0"
edition = "2021"
publish = false

[dependencies]
clap = "4"
shlex = "1"
