[package]
name = "swpr_token"
version = "0.1.0"
edition = "2021"
publish = false

[dependencies]
casper-contract = "1"
casper-types = "1"
once_cell = "1"
