[package]
name = "mpd"
version = "0.1.0"
edition = "2021"
publish = false

[dependencies]
bufstream = "*"
serde = { version = "1", features = ["derive"] }
time = "0.1"
