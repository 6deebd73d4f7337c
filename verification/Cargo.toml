[package]
name = "lambda_lang"
version = "0.1.0"
edition = "2021"
publish = false

[dependencies]
rust_decimal = { version = "=1.36.0", features = ["maths"] }
serde_json = "=1.0.154"
clap = { version = "=4.5.61", features = ["derive"] }
crossterm = "=0.28.1"
rand = "=0.8.5"
anyhow = "=1.0.104"
