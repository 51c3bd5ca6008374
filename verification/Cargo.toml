[package]
name = "copperd"
version = "0.1.0"
edition = "2021"
publish = false

[dependencies]
serde = { version = "1", features = ["derive"] }
serde_json = "1"
rand = "0.8"
semver = "1"
resvg = { version = "*", default-features = false }
dirs = "5"
clap = { version = "4", features = ["derive"] }
tiny_http = "0.12"
ureq = "2"
ctrlc = "3"
walkdir = "2"
keyring = "3"
tray-item = "*"
windows-sys = "0.52"
