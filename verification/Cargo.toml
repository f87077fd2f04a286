[package]
name = "chprog-lib"
version = "0.1.0"
edition = "2021"
publish = false

[dependencies]
rand = "0.8"
serial = "0.4"
clap = { version = "3.2", features = ["derive"] }
thiserror = "1.0"
