[package]
name = "actuator_schedule"
version = "0.1.0"
edition = "2021"
publish = false

[dependencies]
tarpc = { version = "*", default-features = false }
