[package]
name = "watcher"
version = "0.0.1"
edition = "2021"
publish = false

[dependencies]
clap = "2"
error-chain = "0.12"
notify = "4"
