[package]
name = "bevy_spacetimedb"
version = "0.1.0"
edition = "2021"
publish = false

[dependencies]
bevy = { version = "=0.17.3", default-features = false }
spacetimedb-sdk = "=2.0.5"
