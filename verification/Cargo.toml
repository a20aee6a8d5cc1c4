[package]
name = "grouphug"
version = "0.1.0"
edition = "2021"
publish = false

[dependencies]
bdk = { version = "=0.29.0", default-features = false, features = ["std", "electrum"] }
hex = "=0.4.3"
once_cell = "=1.21.4"
