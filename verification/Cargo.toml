[package]
name = "pseudocode"
version = "0.1.0"
edition = "2021"
publish = false

[dependencies]
rand = "0.8"
chumsky = "0.9"
ariadne = "0.3"
