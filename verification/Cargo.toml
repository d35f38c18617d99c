[package]
name = "autoclicker"
version = "0.1.0"
edition = "2021"
publish = false

[dependencies]
fastrand = "2"
enigo = "0.2"
