[package]
name = "grin_pool"
version = "0.1.0"
edition = "2021"
publish = false

[dependencies]
bufstream = "0.1"
grin_core = "5"
grin_util = "5"
rand = "0.8"
