[package]
name = "letsconnectdreams_tui"
version = "0.1.0"
edition = "2021"
publish = false

[dependencies]
rsa = "0.9"
rand = "0.8"
rust-ini = "0.21"
ipnetwork = "0.20"
