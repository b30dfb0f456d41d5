[package]
name = "dir_diff"
version = "0.1.0"
edition = "2021"
publish = false

[dependencies]
clap = { version = "3", features = ["derive"] }
colored = "2"
glob = "0.3"
