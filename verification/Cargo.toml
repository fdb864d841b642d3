[package]
name = "lwext4_rust"
version = "0.2.0"
edition = "2021"
publish = false

[dependencies]
log = "0.4"
