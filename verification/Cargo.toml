[package]
name = "cafehub"
version = "0.1.0"
edition = "2021"
publish = false

[dependencies]
bcrypt = "*"
chrono = "*"
mysql = "*"
rust_decimal = "*"
