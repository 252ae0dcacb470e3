[package]
name = "dns_online"
version = "0.1.0"
edition = "2021"
publish = false

[dependencies]
curl = "0.4"
serde_json = "1"
clap = "2"
