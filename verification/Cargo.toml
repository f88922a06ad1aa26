[package]
name = "macaroon_auth"
version = "0.1.0"
edition = "2021"
publish = false

[dependencies]
macaroons = "*"
memmap = "0.7"
rand = "0.4"
