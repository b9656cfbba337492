[package]
name = "yasg"
version = "0.1.0"
edition = "2021"
publish = false

[dependencies]
pulldown-cmark = "*"
mustache = "*"
clap = "*"

[dev-dependencies]
yaml-rust = "*"
