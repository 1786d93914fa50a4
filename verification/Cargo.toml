[package]
name = "silverfox"
version = "0.1.0"
edition = "2021"
publish = false

[dependencies]
chrono = "0.4"
csv = "1"
nom = "7"
terminal_size = "0.4"
