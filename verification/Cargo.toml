[package]
name = "takeover"
version = "0.1.0"
edition = "2021"
publish = false

[dependencies]
flate2 = "1"
nix = { version = "*", features = ["fs", "mount", "process", "signal"] }
libc = "0.2"
clap = { version = "4", features = ["derive"] }
structopt = "0.3"
serde = { version = "1", features = ["derive"] }
serde_yaml = "0.9"
which = "*"
log = "0.4"
mod_logger = "*"
