[package]
name = "spdrw"
version = "0.1.0"
edition = "2021"
publish = false

[dependencies]
clap = { version = "=4.6.7", features = ["derive"] }
serialport = { version = "=4.10.1", default-features = false }

[dev-dependencies]
serde_json = "=1.0.151"
