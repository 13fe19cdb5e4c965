[package]
name = "soy_stemmer"
version = "0.1.0"
edition = "2021"
publish = false

[dependencies]
rust-stemmers = "*"
hashbrown = "*"
rustler = "*"
