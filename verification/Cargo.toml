[package]
name = "taskmaster"
version = "0.1.0"
edition = "2021"
publish = false

[dependencies]
clap = "2"
libc = "0.2"
log = "0.4"
nix = "0.19"
serde = { version = "1", features = ["derive"] }
serde_json = "1"
serde_yaml = "0.8"
signal-hook = "0.3"
termion = "1.5"
toml = "0.5"
