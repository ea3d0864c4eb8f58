[package]
name = "helm_core"
version = "0.1.0"
edition = "2021"
publish = false

[dependencies]
tfhe = { version = "*", default-features = false, features = ["boolean"] }
clap = "*"
termion = "*"
