[package]
name = "midi-start-program"
version = "0.1.0"
edition = "2021"
publish = false

[dependencies]
clap = { version = "=4.6.7", features = ["derive"] }
keepawake = "=0.6.1"
libc = "0.2"
midi-msg = "=0.9.0"
midir = "=0.11.1"
signal-hook = "=0.4.6"
thiserror = "=2.0.21"
xdg = "=3.0.0"
