[package]
name = "voidgamebot"
version = "0.1.0"
edition = "2021"
publish = false

[dependencies]
discord = { version = "0.8", default-features = false }
lazy_static = "1"
libloading = "0.5"
regex = "1"
