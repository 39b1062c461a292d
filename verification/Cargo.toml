[package]
name = "sql_log_parser"
version = "0.1.0"
edition = "2021"
publish = false

[dependencies]
regex = "1"
encoding_rs = "0.8"
once_cell = "1"
serde = { version = "1", features = ["derive"] }
serde_json = "1"
chrono = "0.4"
directories = "*"
arboard = { version = "3", default-features = false }
