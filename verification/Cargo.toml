[package]
name = "crt"
version = "0.1.0"
edition = "2021"
publish = false

[dependencies]
proc-macro2 = "1"
syn = { version = "2", features = ["full"] }
prettyplease = "0.2"
clap = { version = "4", features = ["derive"] }
anyhow = "1"
env_logger = "0.11"
cxx = "1"
