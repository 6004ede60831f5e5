[package]
name = "macrokey"
version = "0.1.0"
edition = "2021"
publish = false

[dependencies]
evdev = { version = "0.13", features = ["tokio"] }
regex = "1"
tokio = { version = "1", features = ["rt-multi-thread", "macros", "sync", "time", "process"] }
once_cell = "1"
nix = { version = "0.29", features = ["user"] }
env_logger = "0.11"
log = "0.4"
