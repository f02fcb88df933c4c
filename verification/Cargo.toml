[package]
name = "execute"
version = "0.1.0"
edition = "2021"
publish = false

[dependencies]
crossbeam-queue = "0.3"
wait-timeout = "0.2"
thiserror = "1"
