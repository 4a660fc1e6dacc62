[package]
name = "hitcounter"
version = "0.1.0"
edition = "2021"
publish = false

[dependencies]
regex = "1"
toml = "0.8"
nix = { version = "0.29", features = ["socket", "signal", "process"] }
ctrlc = "3"
