[package]
name = "pdcn_common"
version = "0.1.0"
edition = "2021"
publish = false

[dependencies]
sha2 = "0.10"
wasmi = "0.9"
embedded-hal = "=1.0.0-alpha.1"
nb = "1"
