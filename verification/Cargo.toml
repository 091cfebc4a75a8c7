[package]
name = "mioplays"
version = "0.1.0"
edition = "2021"
publish = false

[dependencies]
lofty = "0.22"
oneshot = "0.1"
smol = "2"
