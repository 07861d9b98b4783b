[package]
name = "aws_embedded_metrics"
version = "0.1.0"
edition = "2021"
publish = false

[dependencies]
serde = { version = "1", features = ["derive"] }
serde_json = "1"
envy = "*"
url = "2"
