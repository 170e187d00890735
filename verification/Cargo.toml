[package]
name = "nbssh"
version = "0.1.0"
edition = "2021"
publish = false

[dependencies]
serde = "1"
thiserror = "1"

[dev-dependencies]
serde_test = "1"
