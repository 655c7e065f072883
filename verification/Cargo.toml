[package]
name = "kdd"
version = "0.1.0"
edition = "2021"
publish = false

[dependencies]
pathdiff = "0.2"
yaml-rust = "0.4"
handlebars = "4"
serde_json = "1"
regex = "1"
clap = "3"
thiserror = "1"
