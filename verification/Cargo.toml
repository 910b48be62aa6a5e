[package]
name = "nixgen"
version = "0.1.0"
edition = "2021"
publish = false

[dependencies]
color-eyre = "*"
nix = { version = "*", features = ["fs", "hostname", "user"] }
rom = "*"
subprocess = "*"
tracing = "*"
