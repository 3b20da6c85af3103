[package]
name = "wordgen"
version = "0.1.0"
edition = "2021"
publish = false

[dependencies]
rand = "0.8"
regex = "1"
unicode-segmentation = "1"
rustc-serialize = "0.3"
