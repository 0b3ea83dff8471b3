[package]
name = "circadian"
version = "0.1.0"
edition = "2021"
publish = false

[dependencies]
regex = "1"
rust-ini = "0.21"
glob = "0.3"
nix = { version = "0.29", features = ["signal"] }
clap = "2"
time = "0.1"
