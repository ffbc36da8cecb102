[package]
name = "pwdgen"
version = "0.1.1"
edition = "2021"
publish = false

[dependencies]
rand = "0.8"
clap = "2"
