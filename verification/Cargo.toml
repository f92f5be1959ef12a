[package]
name = "guepardos-welcome"
version = "0.1.0"
edition = "2021"
publish = false

[dependencies]
async-channel = "2"
gtk = "0.18"
serde = { version = "1", features = ["derive"] }
serde_json = "1"
subprocess = "0.2"
tracing = "0.1"
which = "*"
