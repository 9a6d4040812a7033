[package]
name = "graphplay"
version = "0.1.0"
edition = "2021"
publish = false

[dependencies]
assert_no_alloc = "*"
clap = { version = "*", features = ["derive"] }
cpal = "*"
fundsp = "*"
