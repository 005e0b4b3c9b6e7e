[package]
name = "shellbird"
version = "0.1.0"
edition = "2021"
publish = false

[dependencies]
json = "=0.12.4"
mpd = "=0.1.0"
termion = "=4.0.6"
unicode-truncate = "=1.1.0"
unicode-width = "=0.1.11"
signal-hook = "=0.4.6"
home = "=0.5.12"
id3 = "=1.17.2"
shellexpand = "=3.1.2"
clap = { version = "=4.6.7", features = ["derive"] }
