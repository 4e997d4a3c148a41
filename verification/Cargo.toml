[package]
name = "csv_db"
version = "0.3.0"
edition = "2021"
publish = false

[dependencies]
csv = "1"
serde = "1"
tokio = { version = "1", features = ["rt"] }
