[package]
name = "midi_isolate"
version = "0.1.0"
edition = "2021"
publish = false

[dependencies]
midly = "*"
zip = { version = "*", default-features = false, features = ["deflate"] }
