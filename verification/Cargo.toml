[package]
name = "wg-waybar"
version = "0.1.0"
edition = "2021"
publish = false

[dependencies]
base64 = "=0.22.1"
clap = { version = "=4.6.7", features = ["derive"] }
defguard_wireguard_rs = "=0.7.8"
libc = "=0.2.191"
procfs = "=0.18.0"
rust-ini = "=0.21.3"
serde = { version = "=1.0.229", features = ["derive"] }
serde_json = "=1.0.154"
uzers = "=0.12.2"
x25519-dalek = "=2.0.1"
