[package]
name = "deet"
version = "0.1.0"
edition = "2021"
publish = false

[dependencies]
failure = "0.1"
lazy_static = "1"
log = "0.4"
rand = "0.8"
semver = "1"
toml_edit = "*"
unicode-segmentation = "1"
