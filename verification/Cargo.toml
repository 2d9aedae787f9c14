[package]
name = "typomorph"
version = "0.1.0"
edition = "2021"
publish = false

[dependencies]
sha2 = "0.10"
serde = { version = "1", features = ["derive"] }
serde_json = "1"
ureq = "2"
thiserror = "1"
clap = { version = "4", features = ["derive"] }
dirs = "5"
evdev = "0.12"
ksni = "0.2"
zbus = "3"
