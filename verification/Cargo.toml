[package]
name = "hyu"
version = "0.1.0"
edition = "2021"
publish = false

[dependencies]
nix = { version = "*", features = ["ioctl", "fs", "event", "poll", "time", "term"] }
serde = { version = "1", features = ["derive"] }
serde_json = "1"
color-eyre = "*"
ash = "*"
bytemuck = { version = "1", features = ["derive"] }
glow = "*"
