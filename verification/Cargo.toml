[package]
name = "rocket_lamb"
version = "0.1.0"
edition = "2021"
publish = false

[dependencies]
rocket = "0.5"
lamedh_http = "0.3"
lamedh_runtime = "0.3"
aws_lambda_events = "0.4"
http = "0.2"
failure = "0.1"
tokio = { version = "1", features = ["sync"] }
