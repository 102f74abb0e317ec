[package]
name = "soundbar"
version = "0.1.0"
edition = "2021"
publish = false

[dependencies]
anyhow = "1"
clap = { version = "4", features = ["derive"] }
crossterm = "*"
ratatui = "*"
rustfft = "6"
serde_json = "1"
tracing-subscriber = "0.3"
objc2 = "*"
objc2-core-audio = "*"
objc2-core-audio-types = "*"
objc2-core-foundation = "*"
objc2-foundation = "*"
