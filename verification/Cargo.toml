[package]
name = "rpsql_planner"
version = "0.1.0"
edition = "2021"
publish = false

[dependencies]
clap = "2"
json = "0.12"
serde = { version = "1", features = ["derive"] }
serde_json = "1"
sqlparser = "*"
