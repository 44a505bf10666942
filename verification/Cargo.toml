[package]
name = "blockchain"
version = "0.1.0"
edition = "2021"
publish = false

[dependencies]
sha2 = "0.10"
rsa = "0.4"
rand = "0.8"
log = "0.4"
simple_logger = "4"
