[package]
name = "hkcp"
version = "0.1.0"
edition = "2021"
publish = false

[dependencies]
rand = "0.7"
parking_lot = "0.12"
crossbeam-channel = "0.5"
