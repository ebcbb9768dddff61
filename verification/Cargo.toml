[package]
name = "email_extract"
version = "0.1.0"
edition = "2021"
publish = false

[dependencies]
chrono = { version = "=0.4.45", features = ["serde"] }
mailparse = "=0.18.0"
regex = "=1.13.1"
serde = { version = "=1.0.229", features = ["derive"] }
thiserror = "=2.0.21"
tracing = "0.1"
