[package]
name = "videdit"
version = "0.1.0"
edition = "2021"
publish = false

[dependencies]
serde = { version = "1", features = ["derive"] }
serde_json = "1"
hound = "3"
log = "0.4"
tempfile = "3"
wasapi = "0.22"
