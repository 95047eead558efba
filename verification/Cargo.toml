[package]
name = "camview"
version = "0.1.0"
edition = "2021"
publish = false

[dependencies]
nokhwa = { version = "=0.10.11", default-features = false }
flume = "=0.11.1"
clap = { version = "=4.6.7", default-features = false, features = ["std", "derive", "help"] }
color-eyre = { version = "=0.6.5", default-features = false }
