[package]
name = "rustproxy"
version = "0.1.0"
edition = "2021"
publish = false

[dependencies]
toml_edit = "*"
clap = { version = "*", features = ["derive"] }
dirs = "*"
