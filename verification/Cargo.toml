[package]
name = "edgeprint"
version = "0.1.0"
edition = "2021"
publish = false

[dependencies]
anyhow = "1"
clap = { version = "3", features = ["derive"] }
clap_generate = "3"
colorful = "0.2"
prettytable-rs = "0.10"
num-bigint = "0.4"
bigdecimal = "0.4"

[dev-dependencies]
