[package]
name = "chord_node"
version = "0.1.0"
edition = "2021"
publish = false

[dependencies]
sha1 = "0.10"
rand = "0.8"
clap = { version = "4", features = ["derive"] }
