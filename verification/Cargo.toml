[package]
name = "nv_telemetry"
version = "0.1.0"
edition = "2021"
publish = false

[dependencies]
prost = { version = "*", features = ["derive"] }
serde = { version = "1", features = ["derive"] }
