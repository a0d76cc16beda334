[package]
name = "beatsaber"
version = "0.1.0"
edition = "2021"
publish = false

[dependencies]
err-derive = "=0.3.1"
reqwest = "=0.9.24"
serde = { version = "=1.0.229", features = ["derive"] }
