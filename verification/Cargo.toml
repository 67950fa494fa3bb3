[package]
name = "netsetup"
version = "0.1.0"
edition = "2021"
publish = false

[dependencies]
sysctl = "*"
serde = { version = "*", features = ["derive"] }
serde_json = "*"
clap = { version = "*", features = ["derive"] }
log = "*"
