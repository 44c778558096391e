[package]
name = "iptables-compose"
version = "1.1.0"
edition = "2021"
publish = false

[dependencies]
clap = "2"
yaml-rust = "0.4"
