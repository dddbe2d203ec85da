[package]
name = "fsdb"
version = "0.1.0"
edition = "2021"
publish = false

[dependencies]
serde = "*"
rmp-serde = "*"
thiserror = "*"
