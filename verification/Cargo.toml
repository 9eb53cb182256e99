[package]
name = "standalone_recorder"
version = "0.1.0"
edition = "2021"
publish = false

[dependencies]
cpal = "*"
dasp = "*"
magnum-opus = "*"
libpulse-binding = "*"
libpulse-simple-binding = "*"
