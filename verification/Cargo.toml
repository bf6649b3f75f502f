[package]
name = "autolink"
version = "0.1.0"
edition = "2021"
publish = false

[dependencies]
anyhow = "1"
human-panic = "1"
path-absolutize = "3"
regex = "1"
shellexpand = "3"
structopt = "0.3"
