[package]
name = "timbre_tweak"
version = "0.1.0"
edition = "2021"
publish = false

[dependencies]
cpal = "=0.16.0"
rfd = "=0.15.4"
serde = { version = "=1.0.229", features = ["derive"] }
serde_json = "=1.0.154"

[dev-dependencies]
dasp_sample = "=0.11.0"
