[package]
name = "rss"
version = "0.1.0"
edition = "2021"

[dependencies]
regex = "1"
rand = "0.8"
