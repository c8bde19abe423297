[package]
name = "slow5"
version = "0.1.0"
edition = "2021"
publish = false

[dependencies]
libc = "0.2"
serde = "1.0"
thiserror = "1.0"
