[package]
name = "awesome_remote"
version = "0.1.0"
edition = "2021"
publish = false

[dependencies]
anyhow = "1"
async-std = { version = "1", features = ["attributes"] }
thiserror = "1"
zbus = "3"
