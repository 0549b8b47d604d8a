[package]
name = "oxygen"
version = "0.1.0"
edition = "2021"
publish = false

[dependencies]
byteorder = "1"
chrono = "0.4"
clap = { version = "4", features = ["derive"] }
color-eyre = "0.6"
cpal = "0.15"
ctrlc = "3"
hound = "3"
rusqlite = { version = "*", features = ["bundled"] }
tempfile = "3"
vorbis-encoder = "*"
