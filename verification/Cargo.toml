[package]
name = "sgmlish"
version = "0.2.0"
edition = "2021"
publish = false

[dependencies]
nom = "7"
serde = "1"
thiserror = "1"
