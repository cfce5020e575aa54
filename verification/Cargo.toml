[package]
name = "deskbridge"
version = "0.1.0"
edition = "2021"
publish = false

[dependencies]
sha2 = "0.11"
rdev = { version = "0.5", features = ["unstable_grab"] }
tokio = { version = "1", features = ["net", "io-util", "fs", "rt-multi-thread", "time"] }
dirs = "6"
gethostname = "1"
local-ip-address = "0.6"
mdns-sd = "0.13"
rfd = { version = "0.15", default-features = false, features = ["xdg-portal", "tokio"] }
serde = { version = "1", features = ["derive"] }
serde_json = "1"
