[package]
name = "open_mpv"
version = "0.1.0"
edition = "2021"
publish = false

[dependencies]
gufo-common = "1.1.0"
rustix = { version = "1.1", features = ["fs"] }
tempfile = "3"
