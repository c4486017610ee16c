[package]
name = "angel"
version = "0.1.0"
edition = "2021"
publish = false

[dependencies]
regex = "1"
anyhow = "1"
clap = { version = "4", features = ["derive"] }
comfy-table = "7"
crossterm = "*"
dialoguer = "0.11"
dirs = "*"
glob = "0.3"
libc = "0.2"
nix = { version = "*", features = ["fs", "user"] }
nu-ansi-term = "*"
plist = "1"
serde = { version = "1", features = ["derive"] }
serde_yaml = "0.9"
strum = { version = "*", features = ["derive"] }
thiserror = "*"
